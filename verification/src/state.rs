//! The marketplace core: the registry of collectibles, the listing
//! ledger, and the append-only transaction log, with the invariants
//! that tie them together.
//!
//! All three collections live in one store so that each marketplace
//! operation checks its preconditions and mutates state in a single
//! critical section; a caller that shares the store across threads
//! wraps the whole store in one lock.

use vstd::pervasive::VecAdditionalExecFns;
use vstd::prelude::*;

use crate::art::{render_svg, svg_of};
use crate::b64::{base64_encode, base64_of};
use crate::digest::{
    fingerprint_of, hex_decode, hex_decode_spec, hex_encode, is_hex_seq, lemma_hex_decode_len,
    lemma_hex_of_bytes_len, sha256, sha256_of,
};
use crate::fresh::{new_uuid_bytes, new_uuid_string, now_millis};
use crate::models::{
    nft_ok, Attribute, AttrV, ListingStatus, ListingV, MarketError, MarketplaceStats,
    NFTListing, NFTMetadata, NftV, Transaction, TxV, UserCollection, XMLUploadRequest, NFT,
};
use crate::numfmt::{dec_str, dec_str_padded, u64_to_string, u64_to_string_padded};
use crate::rarity::{hex_letter_count, rarity_name};
use crate::strutil::{lossy_utf8, str_eq, utf8_lossy};
use vstd::string::StrSliceExecFns;

verus! {

/// The sequence of record views a sequence of records denotes.
pub open spec fn nft_views(s: Seq<NFT>) -> Seq<NftV> {
    s.map_values(|n: NFT| n@)
}

pub open spec fn listing_views(s: Seq<NFTListing>) -> Seq<ListingV> {
    s.map_values(|l: NFTListing| l@)
}

pub open spec fn tx_views(s: Seq<Transaction>) -> Seq<TxV> {
    s.map_values(|t: Transaction| t@)
}

/// Whether some record carries the id.
pub open spec fn has_nft(nfts: Seq<NftV>, id: Seq<char>) -> bool {
    exists|i: int| 0 <= i < nfts.len() && (#[trigger] nfts[i]).id == id
}

/// The record carrying the id (meaningful when ids are unique).
pub open spec fn nft_at(nfts: Seq<NftV>, id: Seq<char>) -> NftV {
    nfts[choose|i: int| 0 <= i < nfts.len() && (#[trigger] nfts[i]).id == id]
}

/// Whether `l` is an active listing for `id`.
pub open spec fn is_active_for(l: ListingV, id: Seq<char>) -> bool {
    l.nft_id == id && l.status == ListingStatus::Active
}

/// Whether an active listing for `id` exists.
pub open spec fn has_active(ls: Seq<ListingV>, id: Seq<char>) -> bool {
    exists|i: int| 0 <= i < ls.len() && is_active_for(#[trigger] ls[i], id)
}

/// The active listing for `id` (meaningful when at most one exists).
pub open spec fn active_at(ls: Seq<ListingV>, id: Seq<char>) -> ListingV {
    ls[choose|i: int| 0 <= i < ls.len() && is_active_for(#[trigger] ls[i], id)]
}

/// The most recent transaction concerning `id`, by log order.
pub open spec fn last_tx_for(ts: Seq<TxV>, id: Seq<char>) -> Option<TxV>
    decreases ts.len(),
{
    if ts.len() == 0 {
        None
    } else if ts.last().nft_id == id {
        Some(ts.last())
    } else {
        last_tx_for(ts.drop_last(), id)
    }
}

/// Record ids are pairwise distinct.
pub open spec fn ids_unique(nfts: Seq<NftV>) -> bool {
    forall|i: int, j: int|
        0 <= i < nfts.len() && 0 <= j < nfts.len() && i != j ==> (#[trigger] nfts[i]).id != (
        #[trigger] nfts[j]).id
}

/// Every record satisfies the record-level invariant.
pub open spec fn all_records_ok(nfts: Seq<NftV>) -> bool {
    forall|i: int| 0 <= i < nfts.len() ==> nft_ok(#[trigger] nfts[i])
}

/// Every listing references an existing record.
pub open spec fn listings_reference_nfts(nfts: Seq<NftV>, ls: Seq<ListingV>) -> bool {
    forall|i: int| 0 <= i < ls.len() ==> has_nft(nfts, (#[trigger] ls[i]).nft_id)
}

/// Every asking price is positive.
pub open spec fn listing_prices_positive(ls: Seq<ListingV>) -> bool {
    forall|i: int| 0 <= i < ls.len() ==> (#[trigger] ls[i]).price > 0
}

/// No two distinct active listings share a collectible id.
pub open spec fn at_most_one_active(ls: Seq<ListingV>) -> bool {
    forall|i: int, j: int|
        0 <= i < ls.len() && 0 <= j < ls.len() && i != j && (#[trigger] ls[i]).status
            == ListingStatus::Active && (#[trigger] ls[j]).status == ListingStatus::Active
            ==> ls[i].nft_id != ls[j].nft_id
}

/// A record's listed flag agrees with the existence of an active
/// listing for its id.
pub open spec fn listed_flags_agree(nfts: Seq<NftV>, ls: Seq<ListingV>) -> bool {
    forall|i: int|
        0 <= i < nfts.len() ==> ((#[trigger] nfts[i]).is_listed <==> has_active(
            ls,
            nfts[i].id,
        ))
}

/// Every transaction references an existing record.
pub open spec fn txs_reference_nfts(nfts: Seq<NftV>, ts: Seq<TxV>) -> bool {
    forall|i: int| 0 <= i < ts.len() ==> has_nft(nfts, (#[trigger] ts[i]).nft_id)
}

/// Each record's owner is the buyer of the most recent sale of that
/// record, if it was ever sold.
pub open spec fn owners_follow_sales(nfts: Seq<NftV>, ts: Seq<TxV>) -> bool {
    forall|i: int|
        0 <= i < nfts.len() ==> (last_tx_for(ts, (#[trigger] nfts[i]).id) matches Some(t)
            ==> t.buyer == nfts[i].owner)
}

/// Well-formedness of the whole store.
pub open spec fn wf_state(nfts: Seq<NftV>, ls: Seq<ListingV>, ts: Seq<TxV>) -> bool {
    &&& ids_unique(nfts)
    &&& all_records_ok(nfts)
    &&& listings_reference_nfts(nfts, ls)
    &&& listing_prices_positive(ls)
    &&& at_most_one_active(ls)
    &&& listed_flags_agree(nfts, ls)
    &&& txs_reference_nfts(nfts, ts)
    &&& owners_follow_sales(nfts, ts)
}

/// `new_s` is `old_s` with the record carrying `id` replaced by
/// `rec`, everything else unchanged.
pub open spec fn updated_at_id(
    old_s: Seq<NftV>,
    new_s: Seq<NftV>,
    id: Seq<char>,
    rec: NftV,
) -> bool {
    exists|i: int|
        0 <= i < old_s.len() && (#[trigger] old_s[i]).id == id && new_s == old_s.update(i, rec)
}

/// `new_ls` is `old_ls` with the active listing for `id` given
/// status `st`, everything else unchanged.
pub open spec fn closed_at_id(
    old_ls: Seq<ListingV>,
    new_ls: Seq<ListingV>,
    id: Seq<char>,
    st: ListingStatus,
) -> bool {
    exists|i: int|
        0 <= i < old_ls.len() && is_active_for(#[trigger] old_ls[i], id) && new_ls
            == old_ls.update(i, ListingV { status: st, ..old_ls[i] })
}

/// The shared in-memory store behind the service: the registry of
/// collectibles, the listing ledger, and the transaction log.
pub struct AppState {
    pub nfts: Vec<NFT>,
    pub listings: Vec<NFTListing>,
    pub transactions: Vec<Transaction>,
}

impl AppState {
    /// The registry's mathematical content.
    pub open spec fn nfts_v(&self) -> Seq<NftV> {
        nft_views(self.nfts@)
    }

    /// The ledger's mathematical content.
    pub open spec fn listings_v(&self) -> Seq<ListingV> {
        listing_views(self.listings@)
    }

    /// The log's mathematical content.
    pub open spec fn txs_v(&self) -> Seq<TxV> {
        tx_views(self.transactions@)
    }

    /// Well-formedness of the store. Established by `new`, preserved
    /// by every operation.
    pub open spec fn wf(&self) -> bool {
        wf_state(self.nfts_v(), self.listings_v(), self.txs_v())
    }

    /// Creates the store with its fixed seed of sample collectibles:
    /// two unlisted records with ids `1` and `2`.
    pub fn new() -> (r: AppState)
        ensures
            r.wf(),
            r.nfts_v().len() == 2,
            r.listings_v().len() == 0,
            r.txs_v().len() == 0,
            r.nfts_v()[0].id == "1"@,
            r.nfts_v()[0].owner == "0x1234567890123456789012345678901234567890"@,
            r.nfts_v()[0].rarity == "Legendary"@,
            !r.nfts_v()[0].is_listed,
            r.nfts_v()[0].price is None,
            r.nfts_v()[1].id == "2"@,
            r.nfts_v()[1].owner == "0x0987654321098765432109876543210987654321"@,
            r.nfts_v()[1].rarity == "Epic"@,
            !r.nfts_v()[1].is_listed,
            r.nfts_v()[1].price is None,
    {
        let mut state = AppState { nfts: Vec::new(), listings: Vec::new(), transactions: Vec::new() };
        state.add_mock_nfts();
        state
    }

    /// Seeds the empty store with the two sample collectibles.
    fn add_mock_nfts(&mut self)
        requires
            old(self).nfts@.len() == 0,
            old(self).listings@.len() == 0,
            old(self).transactions@.len() == 0,
        ensures
            final(self).wf(),
            final(self).nfts_v().len() == 2,
            final(self).listings_v().len() == 0,
            final(self).txs_v().len() == 0,
            final(self).nfts_v()[0].id == "1"@,
            final(self).nfts_v()[0].owner == "0x1234567890123456789012345678901234567890"@,
            final(self).nfts_v()[0].rarity == "Legendary"@,
            !final(self).nfts_v()[0].is_listed,
            final(self).nfts_v()[0].price is None,
            final(self).nfts_v()[1].id == "2"@,
            final(self).nfts_v()[1].owner == "0x0987654321098765432109876543210987654321"@,
            final(self).nfts_v()[1].rarity == "Epic"@,
            !final(self).nfts_v()[1].is_listed,
            final(self).nfts_v()[1].price is None,
    {
        let first = NFT {
            id: "1".to_owned(),
            token_id: "GENE-00001".to_owned(),
            metadata: NFTMetadata {
                name: "Human Genome Sequence".to_owned(),
                description: "Complete human genome sequence data".to_owned(),
                image:
                    "data:image/svg+xml;base64,PHN2ZyB3aWR0aD0iMzIwIiBoZWlnaHQ9IjMyMCIgeG1sbnM9Imh0dHA6Ly93d3cudzMub3JnLzIwMDAvc3ZnIj48cmVjdCB3aWR0aD0iMTAwJSIgaGVpZ2h0PSIxMDAlIiBmaWxsPSIjZmY2YjZiIi8+PHRleHQgeD0iMTAiIHk9IjIwIiBmaWxsPSJ3aGl0ZSI+SHVtYW4gR2Vub21lPC90ZXh0Pjwvc3ZnPg==".to_owned(),
                attributes: vec![
                    Attribute { trait_type: "Species".to_owned(), value: "Human".to_owned() },
                    Attribute { trait_type: "Complexity".to_owned(), value: "High".to_owned() },
                ],
                external_url: "https://example.com/human-genome".to_owned(),
                license: "MIT".to_owned(),
                provenance: "Generated from XML data".to_owned(),
            },
            xml_content:
                "<genome><species>human</species><complexity>high</complexity></genome>".to_owned(),
            xml_hash: "a1b2c3d4e5f6".to_owned(),
            owner: "0x1234567890123456789012345678901234567890".to_owned(),
            rarity: "Legendary".to_owned(),
            created_at: now_millis(),
            price: None,
            is_listed: false,
            listing_date: None,
        };
        let second = NFT {
            id: "2".to_owned(),
            token_id: "GENE-00002".to_owned(),
            metadata: NFTMetadata {
                name: "Plant DNA Analysis".to_owned(),
                description: "Genetic analysis of rare plant species".to_owned(),
                image:
                    "data:image/svg+xml;base64,PHN2ZyB3aWR0aD0iMzIwIiBoZWlnaHQ9IjMyMCIgeG1sbnM9Imh0dHA6Ly93d3cudzMub3JnLzIwMDAvc3ZnIj48cmVjdCB3aWR0aD0iMTAwJSIgaGVpZ2h0PSIxMDAlIiBmaWxsPSIjNGVjZGM0Ii8+PHRleHQgeD0iMTAiIHk9IjIwIiBmaWxsPSJ3aGl0ZSI+UGxhbnQgRE5BPC90ZXh0Pjwvc3ZnPg==".to_owned(),
                attributes: vec![
                    Attribute { trait_type: "Kingdom".to_owned(), value: "Plantae".to_owned() },
                    Attribute { trait_type: "Rarity".to_owned(), value: "Rare".to_owned() },
                ],
                external_url: "https://example.com/plant-dna".to_owned(),
                license: "CC0".to_owned(),
                provenance: "Generated from XML data".to_owned(),
            },
            xml_content: "<dna><kingdom>plantae</rarity>rare</rarity></dna>".to_owned(),
            xml_hash: "f6e5d4c3b2a1".to_owned(),
            owner: "0x0987654321098765432109876543210987654321".to_owned(),
            rarity: "Epic".to_owned(),
            created_at: now_millis(),
            price: None,
            is_listed: false,
            listing_date: None,
        };
        self.nfts.push(first);
        self.nfts.push(second);
        proof {
            reveal_strlit("1");
            reveal_strlit("2");
            assert(self.nfts_v().len() == 2);
            assert(self.nfts_v()[0].id == "1"@ && self.nfts_v()[1].id == "2"@);
            assert("1"@[0] == '1' && "2"@[0] == '2');
            assert("1"@ != "2"@);
            assert(ids_unique(self.nfts_v()));
            assert(all_records_ok(self.nfts_v()));
            assert(self.listings_v().len() == 0);
            assert(self.txs_v().len() == 0);
            assert forall|i: int| 0 <= i < self.nfts_v().len() implies ((
            #[trigger] self.nfts_v()[i]).is_listed <==> has_active(
                self.listings_v(),
                self.nfts_v()[i].id,
            )) by {
                assert(!has_active(self.listings_v(), self.nfts_v()[i].id));
            }
            assert forall|i: int|
                0 <= i < self.nfts_v().len() implies (last_tx_for(
                self.txs_v(),
                (#[trigger] self.nfts_v()[i]).id,
            ) matches Some(t) ==> t.buyer == self.nfts_v()[i].owner) by {
                assert(last_tx_for(self.txs_v(), self.nfts_v()[i].id) is None);
            }
        }
    }

    /// Inserts a freshly minted record. The id must be new and the
    /// record must not start out listed; otherwise the store is left
    /// unchanged.
    pub fn add_nft(&mut self, nft: NFT) -> (r: Result<(), MarketError>)
        requires
            old(self).wf(),
        ensures
            final(self).wf(),
            final(self).listings_v() == old(self).listings_v(),
            final(self).txs_v() == old(self).txs_v(),
            r is Ok <==> (!has_nft(old(self).nfts_v(), nft@.id) && !nft@.is_listed && nft@.price
                is None && nft@.listing_date is None),
            r is Ok ==> final(self).nfts_v() == old(self).nfts_v().push(nft@),
            r is Err ==> final(self).nfts_v() == old(self).nfts_v() && r == Err::<(),
                MarketError,
            >(MarketError::Validation),
    {
        if nft.is_listed || nft.price.is_some() || nft.listing_date.is_some() {
            return Err(MarketError::Validation);
        }
        if find_nft_index(&self.nfts, nft.id.as_str()).is_some() {
            return Err(MarketError::Validation);
        }
        proof {
            lemma_fresh_id_invariants(
                self.nfts_v(),
                self.listings_v(),
                self.txs_v(),
                nft@,
            );
        }
        self.nfts.push(nft);
        proof {
            assert(self.nfts_v() =~= old(self).nfts_v().push(nft@));
        }
        Ok(())
    }

    /// Returns a copy of the record under `id`, if any.
    pub fn get_nft_by_id(&self, id: &str) -> (r: Option<NFT>)
        requires
            self.wf(),
        ensures
            r is Some <==> has_nft(self.nfts_v(), id@),
            r matches Some(n) ==> n@ == nft_at(self.nfts_v(), id@),
    {
        match find_nft_index(&self.nfts, id) {
            Some(i) => {
                let n = self.nfts[i].clone();
                proof {
                    lemma_nft_at_is(self.nfts_v(), id@, i as int);
                }
                Some(n)
            },
            None => None,
        }
    }

    /// Returns a snapshot of all records, in creation order.
    pub fn get_all_nfts(&self) -> (r: Vec<NFT>)
        ensures
            nft_views(r@) == self.nfts_v(),
    {
        let mut out: Vec<NFT> = Vec::new();
        let mut i: usize = 0;
        while i < self.nfts.len()
            invariant
                i <= self.nfts@.len(),
                out@.len() == i,
                nft_views(out@) =~= nft_views(self.nfts@.take(i as int)),
            decreases self.nfts@.len() - i,
        {
            let ghost prev = out@;
            out.push(self.nfts[i].clone());
            proof {
                assert(prev.len() == i);
                assert forall|k: int| 0 <= k < out@.len() implies nft_views(out@)[k]
                    == nft_views(self.nfts@.take(i + 1 as int))[k] by {
                    if k < i {
                        assert(nft_views(prev)[k] == nft_views(self.nfts@.take(i as int))[k]);
                        assert(out@[k] == prev[k]);
                        assert(self.nfts@.take(i + 1 as int)[k] == self.nfts@.take(i as int)[k]);
                    } else {
                        assert(out@[k]@ == self.nfts@[i as int]@);
                    }
                }
                assert(nft_views(out@) =~= nft_views(self.nfts@.take(i + 1 as int)));
            }
            i = i + 1;
        }
        proof {
            assert(self.nfts@.take(self.nfts@.len() as int) =~= self.nfts@);
            assert(nft_views(out@) =~= self.nfts_v());
        }
        out
    }

    /// Opens a sale offer: checks that the collectible exists, that
    /// the seller owns it, that no active listing exists for it, and
    /// that the price is positive; then records the listing and
    /// marks the collectible listed.
    pub fn list_nft(&mut self, nft_id: &str, price: u64, seller_address: &str) -> (r: Result<
        NFTListing,
        MarketError,
    >)
        requires
            old(self).wf(),
        ensures
            final(self).wf(),
            final(self).txs_v() == old(self).txs_v(),
            r is Err ==> final(self).nfts_v() == old(self).nfts_v() && final(self).listings_v()
                == old(self).listings_v(),
            (r matches Err(e) && e == MarketError::NotFound) <==> !has_nft(
                old(self).nfts_v(),
                nft_id@,
            ),
            (r matches Err(e) && e == MarketError::NotOwner) <==> (has_nft(
                old(self).nfts_v(),
                nft_id@,
            ) && nft_at(old(self).nfts_v(), nft_id@).owner != seller_address@),
            (r matches Err(e) && e == MarketError::AlreadyListed) <==> (has_nft(
                old(self).nfts_v(),
                nft_id@,
            ) && nft_at(old(self).nfts_v(), nft_id@).owner == seller_address@ && has_active(
                old(self).listings_v(),
                nft_id@,
            )),
            (r matches Err(e) && e == MarketError::InvalidPrice) <==> (has_nft(
                old(self).nfts_v(),
                nft_id@,
            ) && nft_at(old(self).nfts_v(), nft_id@).owner == seller_address@ && !has_active(
                old(self).listings_v(),
                nft_id@,
            ) && price == 0),
            r is Ok <==> (has_nft(old(self).nfts_v(), nft_id@) && nft_at(
                old(self).nfts_v(),
                nft_id@,
            ).owner == seller_address@ && !has_active(old(self).listings_v(), nft_id@) && price
                > 0),
            r matches Ok(l) ==> {
                &&& l@.nft_id == nft_id@
                &&& l@.price == price
                &&& l@.seller == seller_address@
                &&& l@.status == ListingStatus::Active
                &&& final(self).listings_v() == old(self).listings_v().push(l@)
                &&& updated_at_id(
                    old(self).nfts_v(),
                    final(self).nfts_v(),
                    nft_id@,
                    NftV {
                        is_listed: true,
                        price: Some(price),
                        listing_date: Some(l@.listed_at),
                        ..nft_at(old(self).nfts_v(), nft_id@)
                    },
                )
                &&& has_active(final(self).listings_v(), nft_id@)
            },
    {
        let i = match find_nft_index(&self.nfts, nft_id) {
            None => { return Err(MarketError::NotFound) },
            Some(i) => i,
        };
        proof {
            lemma_nft_at_is(self.nfts_v(), nft_id@, i as int);
        }
        if !str_eq(self.nfts[i].owner.as_str(), seller_address) {
            return Err(MarketError::NotOwner);
        }
        if find_active_index(&self.listings, nft_id).is_some() {
            return Err(MarketError::AlreadyListed);
        }
        if price == 0 {
            return Err(MarketError::InvalidPrice);
        }
        let listed_at = now_millis();
        let listing = NFTListing {
            nft_id: self.nfts[i].id.clone(),
            price,
            seller: seller_address.to_owned(),
            listed_at,
            status: ListingStatus::Active,
        };
        let updated = record_with_sale_state(
            &self.nfts[i],
            self.nfts[i].owner.clone(),
            Some(price),
            true,
            Some(listed_at),
        );
        let result = listing.clone();
        proof {
            lemma_wf_after_open(
                self.nfts_v(),
                self.listings_v(),
                self.txs_v(),
                i as int,
                listing@,
                updated@,
            );
        }
        let ghost old_nfts_v = self.nfts_v();
        let ghost old_listings_v = self.listings_v();
        self.nfts.set(i, updated);
        self.listings.push(listing);
        proof {
            assert(self.nfts_v() =~= old_nfts_v.update(i as int, updated@));
            assert(self.listings_v() =~= old_listings_v.push(result@));
            assert(is_active_for(self.listings_v()[old_listings_v.len() as int], nft_id@));
        }
        Ok(result)
    }

    /// Settles a sale: checks that an active listing exists and that
    /// the offered price equals the asking price; then transfers
    /// ownership to the buyer, closes the listing as sold, and
    /// appends the transaction.
    pub fn buy_nft(&mut self, nft_id: &str, buyer_address: &str, price: u64) -> (r: Result<
        Transaction,
        MarketError,
    >)
        requires
            old(self).wf(),
        ensures
            final(self).wf(),
            r is Err ==> final(self).nfts_v() == old(self).nfts_v() && final(self).listings_v()
                == old(self).listings_v() && final(self).txs_v() == old(self).txs_v(),
            (r matches Err(e) && e == MarketError::NotListed) <==> !has_active(
                old(self).listings_v(),
                nft_id@,
            ),
            (r matches Err(e) && e == MarketError::PriceMismatch) <==> (has_active(
                old(self).listings_v(),
                nft_id@,
            ) && active_at(old(self).listings_v(), nft_id@).price != price),
            r is Ok <==> (has_active(old(self).listings_v(), nft_id@) && active_at(
                old(self).listings_v(),
                nft_id@,
            ).price == price),
            r matches Ok(t) ==> {
                &&& t@.nft_id == nft_id@
                &&& t@.buyer == buyer_address@
                &&& t@.seller == active_at(old(self).listings_v(), nft_id@).seller
                &&& t@.price == price
                &&& t@.id.len() == 36
                &&& t@.transaction_hash.len() == 34
                &&& final(self).txs_v() == old(self).txs_v().push(t@)
                &&& updated_at_id(
                    old(self).nfts_v(),
                    final(self).nfts_v(),
                    nft_id@,
                    NftV {
                        owner: buyer_address@,
                        is_listed: false,
                        price: None,
                        listing_date: None,
                        ..nft_at(old(self).nfts_v(), nft_id@)
                    },
                )
                &&& closed_at_id(
                    old(self).listings_v(),
                    final(self).listings_v(),
                    nft_id@,
                    ListingStatus::Sold,
                )
                &&& has_nft(final(self).nfts_v(), nft_id@)
                &&& nft_at(final(self).nfts_v(), nft_id@).owner == buyer_address@
                &&& !has_active(final(self).listings_v(), nft_id@)
            },
    {
        let j = match find_active_index(&self.listings, nft_id) {
            None => { return Err(MarketError::NotListed) },
            Some(j) => j,
        };
        proof {
            lemma_active_at_is(self.listings_v(), nft_id@, j as int);
        }
        if self.listings[j].price != price {
            return Err(MarketError::PriceMismatch);
        }
        let i = match find_nft_index(&self.nfts, nft_id) {
            None => {
                proof {
                    assert(has_nft(self.nfts_v(), self.listings_v()[j as int].nft_id));
                }
                return Err(MarketError::NotFound);
            },
            Some(i) => i,
        };
        proof {
            lemma_nft_at_is(self.nfts_v(), nft_id@, i as int);
        }
        let updated = record_with_sale_state(
            &self.nfts[i],
            buyer_address.to_owned(),
            None,
            false,
            None,
        );
        let lst = &self.listings[j];
        let closed = NFTListing {
            nft_id: lst.nft_id.clone(),
            price: lst.price,
            seller: lst.seller.clone(),
            listed_at: lst.listed_at,
            status: ListingStatus::Sold,
        };
        let tx = Transaction {
            id: new_uuid_string(),
            nft_id: self.nfts[i].id.clone(),
            seller: self.listings[j].seller.clone(),
            buyer: buyer_address.to_owned(),
            price,
            transaction_hash: make_tx_hash(),
            timestamp: now_millis(),
        };
        let result = tx.clone();
        proof {
            lemma_wf_after_sale(
                self.nfts_v(),
                self.listings_v(),
                self.txs_v(),
                i as int,
                j as int,
                tx@,
                updated@,
                closed@,
            );
        }
        let ghost old_nfts_v = self.nfts_v();
        let ghost old_listings_v = self.listings_v();
        let ghost old_txs_v = self.txs_v();
        self.nfts.set(i, updated);
        self.listings.set(j, closed);
        self.transactions.push(tx);
        proof {
            assert(self.nfts_v() =~= old_nfts_v.update(i as int, updated@));
            assert(self.listings_v() =~= old_listings_v.update(j as int, closed@));
            assert(self.txs_v() =~= old_txs_v.push(result@));
            lemma_nft_at_is(self.nfts_v(), nft_id@, i as int);
            lemma_has_active_update_inactive(
                old_listings_v,
                j as int,
                ListingStatus::Sold,
            );
        }
        Ok(result)
    }

    /// Withdraws a sale offer: checks that an active listing exists
    /// and that the requester is its seller; then closes the listing
    /// as cancelled and clears the collectible's listed state.
    pub fn cancel_listing(&mut self, nft_id: &str, seller_address: &str) -> (r: Result<
        (),
        MarketError,
    >)
        requires
            old(self).wf(),
        ensures
            final(self).wf(),
            final(self).txs_v() == old(self).txs_v(),
            r is Err ==> final(self).nfts_v() == old(self).nfts_v() && final(self).listings_v()
                == old(self).listings_v(),
            (r matches Err(e) && e == MarketError::NotFound) <==> !has_active(
                old(self).listings_v(),
                nft_id@,
            ),
            (r matches Err(e) && e == MarketError::NotOwner) <==> (has_active(
                old(self).listings_v(),
                nft_id@,
            ) && active_at(old(self).listings_v(), nft_id@).seller != seller_address@),
            r is Ok <==> (has_active(old(self).listings_v(), nft_id@) && active_at(
                old(self).listings_v(),
                nft_id@,
            ).seller == seller_address@),
            r is Ok ==> {
                &&& closed_at_id(
                    old(self).listings_v(),
                    final(self).listings_v(),
                    nft_id@,
                    ListingStatus::Cancelled,
                )
                &&& updated_at_id(
                    old(self).nfts_v(),
                    final(self).nfts_v(),
                    nft_id@,
                    NftV {
                        is_listed: false,
                        price: None,
                        listing_date: None,
                        ..nft_at(old(self).nfts_v(), nft_id@)
                    },
                )
                &&& !has_active(final(self).listings_v(), nft_id@)
            },
    {
        let j = match find_active_index(&self.listings, nft_id) {
            None => { return Err(MarketError::NotFound) },
            Some(j) => j,
        };
        proof {
            lemma_active_at_is(self.listings_v(), nft_id@, j as int);
        }
        if !str_eq(self.listings[j].seller.as_str(), seller_address) {
            return Err(MarketError::NotOwner);
        }
        let i = match find_nft_index(&self.nfts, nft_id) {
            None => {
                proof {
                    assert(has_nft(self.nfts_v(), self.listings_v()[j as int].nft_id));
                }
                return Err(MarketError::NotFound);
            },
            Some(i) => i,
        };
        proof {
            lemma_nft_at_is(self.nfts_v(), nft_id@, i as int);
        }
        let updated = record_with_sale_state(
            &self.nfts[i],
            self.nfts[i].owner.clone(),
            None,
            false,
            None,
        );
        let lst = &self.listings[j];
        let closed = NFTListing {
            nft_id: lst.nft_id.clone(),
            price: lst.price,
            seller: lst.seller.clone(),
            listed_at: lst.listed_at,
            status: ListingStatus::Cancelled,
        };
        proof {
            lemma_wf_after_cancel(
                self.nfts_v(),
                self.listings_v(),
                self.txs_v(),
                i as int,
                j as int,
                updated@,
                closed@,
            );
        }
        let ghost old_nfts_v = self.nfts_v();
        let ghost old_listings_v = self.listings_v();
        self.nfts.set(i, updated);
        self.listings.set(j, closed);
        proof {
            assert(self.nfts_v() =~= old_nfts_v.update(i as int, updated@));
            assert(self.listings_v() =~= old_listings_v.update(j as int, closed@));
            lemma_has_active_update_inactive(
                old_listings_v,
                j as int,
                ListingStatus::Cancelled,
            );
        }
        Ok(())
    }
}

/// The active listings of a ledger, in ledger order.
pub open spec fn active_of(ls: Seq<ListingV>) -> Seq<ListingV> {
    ls.filter(|l: ListingV| l.status == ListingStatus::Active)
}

/// The sum of all recorded sale prices.
pub open spec fn sum_prices(ts: Seq<TxV>) -> int
    decreases ts.len(),
{
    if ts.len() == 0 {
        0
    } else {
        sum_prices(ts.drop_last()) + ts.last().price
    }
}

/// Recency order on log positions: a later timestamp comes first;
/// ties go to the earlier log position.
pub open spec fn precedes(ts: Seq<TxV>, i: int, j: int) -> bool {
    ts[i].timestamp > ts[j].timestamp || (ts[i].timestamp == ts[j].timestamp && i < j)
}

/// `sel` witnesses that `r` is the `n` most recent transactions of
/// `ts`: positions in recency order, and every position left out
/// comes after every position taken.
pub open spec fn selection_witness(ts: Seq<TxV>, r: Seq<TxV>, n: nat, sel: Seq<int>) -> bool {
    &&& sel.len() == r.len()
    &&& r.len() == (if n <= ts.len() {
        n as int
    } else {
        ts.len() as int
    })
    &&& forall|k: int|
        0 <= k < sel.len() ==> 0 <= #[trigger] sel[k] < ts.len() && r[k] == ts[sel[k]]
    &&& forall|k: int, l: int| 0 <= k < l < sel.len() ==> precedes(ts, sel[k], sel[l])
    &&& forall|k: int, j: int|
        0 <= k < sel.len() && 0 <= j < ts.len() && !sel.contains(j) ==> precedes(ts, sel[k], j)
}

/// `r` is the sequence of the `n` most recent transactions of `ts`.
pub open spec fn is_recent_selection(ts: Seq<TxV>, r: Seq<TxV>, n: nat) -> bool {
    exists|sel: Seq<int>| selection_witness(ts, r, n, sel)
}

impl AppState {
    /// Returns copies of all listings whose offer is still open, in
    /// ledger order.
    pub fn get_active_listings(&self) -> (r: Vec<NFTListing>)
        ensures
            listing_views(r@) == active_of(self.listings_v()),
    {
        let ghost vs = self.listings_v();
        let mut out: Vec<NFTListing> = Vec::new();
        let mut i: usize = 0;
        while i < self.listings.len()
            invariant
                i <= self.listings@.len(),
                vs == self.listings_v(),
                listing_views(out@) =~= active_of(vs.take(i as int)),
            decreases self.listings@.len() - i,
        {
            proof {
                assert(vs.take(i + 1 as int) =~= vs.take(i as int).push(vs[i as int]));
                vs.take(i as int).lemma_filter_push(
                    vs[i as int],
                    |l: ListingV| l.status == ListingStatus::Active,
                );
            }
            if self.listings[i].status == ListingStatus::Active {
                let ghost prev = out@;
                out.push(self.listings[i].clone());
                proof {
                    assert(listing_views(out@) =~= listing_views(prev).push(vs[i as int]));
                }
            }
            i = i + 1;
        }
        proof {
            assert(vs.take(vs.len() as int) =~= vs);
        }
        out
    }

    /// Returns everything a wallet holds: its records, the listed
    /// subset, and every transaction where it bought or sold.
    pub fn get_user_collection(&self, wallet_address: &str) -> (r: UserCollection)
        ensures
            r.wallet_address@ == wallet_address@,
            nft_views(r.owned_nfts@) == self.nfts_v().filter(
                |n: NftV| n.owner == wallet_address@,
            ),
            nft_views(r.listed_nfts@) == self.nfts_v().filter(
                |n: NftV| n.owner == wallet_address@ && n.is_listed,
            ),
            tx_views(r.transaction_history@) == self.txs_v().filter(
                |t: TxV| t.seller == wallet_address@ || t.buyer == wallet_address@,
            ),
    {
        let ghost ns = self.nfts_v();
        let ghost xs = self.txs_v();
        let mut owned_nfts: Vec<NFT> = Vec::new();
        let mut listed_nfts: Vec<NFT> = Vec::new();
        let mut i: usize = 0;
        while i < self.nfts.len()
            invariant
                i <= self.nfts@.len(),
                ns == self.nfts_v(),
                nft_views(owned_nfts@) =~= ns.take(i as int).filter(
                    |n: NftV| n.owner == wallet_address@,
                ),
                nft_views(listed_nfts@) =~= ns.take(i as int).filter(
                    |n: NftV| n.owner == wallet_address@ && n.is_listed,
                ),
            decreases self.nfts@.len() - i,
        {
            proof {
                assert(ns.take(i + 1 as int) =~= ns.take(i as int).push(ns[i as int]));
                ns.take(i as int).lemma_filter_push(
                    ns[i as int],
                    |n: NftV| n.owner == wallet_address@,
                );
                ns.take(i as int).lemma_filter_push(
                    ns[i as int],
                    |n: NftV| n.owner == wallet_address@ && n.is_listed,
                );
            }
            if str_eq(self.nfts[i].owner.as_str(), wallet_address) {
                let ghost prev = owned_nfts@;
                owned_nfts.push(self.nfts[i].clone());
                proof {
                    assert(nft_views(owned_nfts@) =~= nft_views(prev).push(ns[i as int]));
                }
                if self.nfts[i].is_listed {
                    let ghost prevl = listed_nfts@;
                    listed_nfts.push(self.nfts[i].clone());
                    proof {
                        assert(nft_views(listed_nfts@) =~= nft_views(prevl).push(ns[i as int]));
                    }
                }
            }
            i = i + 1;
        }
        let mut transaction_history: Vec<Transaction> = Vec::new();
        let mut t: usize = 0;
        while t < self.transactions.len()
            invariant
                t <= self.transactions@.len(),
                xs == self.txs_v(),
                tx_views(transaction_history@) =~= xs.take(t as int).filter(
                    |x: TxV| x.seller == wallet_address@ || x.buyer == wallet_address@,
                ),
            decreases self.transactions@.len() - t,
        {
            proof {
                assert(xs.take(t + 1 as int) =~= xs.take(t as int).push(xs[t as int]));
                xs.take(t as int).lemma_filter_push(
                    xs[t as int],
                    |x: TxV| x.seller == wallet_address@ || x.buyer == wallet_address@,
                );
            }
            let tx = &self.transactions[t];
            if str_eq(tx.seller.as_str(), wallet_address) || str_eq(
                tx.buyer.as_str(),
                wallet_address,
            ) {
                let ghost prev = transaction_history@;
                transaction_history.push(self.transactions[t].clone());
                proof {
                    assert(tx_views(transaction_history@) =~= tx_views(prev).push(xs[t as int]));
                }
            }
            t = t + 1;
        }
        proof {
            assert(ns.take(ns.len() as int) =~= ns);
            assert(xs.take(xs.len() as int) =~= xs);
        }
        UserCollection {
            wallet_address: wallet_address.to_owned(),
            owned_nfts,
            listed_nfts,
            transaction_history,
        }
    }

    /// Returns the read-side projections: how many offers are open,
    /// the total value ever traded, the ten most recent sales, and
    /// the lowest open asking price.
    pub fn get_marketplace_stats(&self) -> (r: MarketplaceStats)
        ensures
            r.total_listings == active_of(self.listings_v()).len(),
            r.total_volume == sum_prices(self.txs_v()),
            r.floor_price is Some <==> exists|k: int|
                0 <= k < self.listings_v().len() && (#[trigger] self.listings_v()[k]).status
                    == ListingStatus::Active,
            r.floor_price matches Some(p) ==> (exists|k: int|
                0 <= k < self.listings_v().len() && (#[trigger] self.listings_v()[k]).status
                    == ListingStatus::Active && self.listings_v()[k].price == p) && (forall|
                k: int,
            |
                0 <= k < self.listings_v().len() && (#[trigger] self.listings_v()[k]).status
                    == ListingStatus::Active ==> p <= self.listings_v()[k].price),
            is_recent_selection(self.txs_v(), tx_views(r.recent_transactions@), 10),
    {
        MarketplaceStats {
            total_listings: count_active(&self.listings),
            total_volume: total_volume_of(&self.transactions),
            recent_transactions: recent_of(&self.transactions, 10),
            floor_price: floor_of(&self.listings),
        }
    }
}

/// A token identifier: `GENE-` and the creation ordinal, zero-padded
/// to eight digits.
pub open spec fn token_id_of(n: nat) -> Seq<char> {
    "GENE-"@ + dec_str_padded(n, 8)
}

impl AppState {
    /// The content fingerprint of uploaded bytes: the SHA-256 digest
    /// as 64 lowercase hex characters. Deterministic in the content.
    pub fn hash_xml_content(&self, content: &[u8]) -> (r: String)
        ensures
            r@ == fingerprint_of(content@),
            r@.len() == 64,
    {
        let digest = sha256(content);
        let r = hex_encode(digest.as_slice());
        proof {
            lemma_hex_of_bytes_len(digest@);
        }
        r
    }

    /// The token identifier the next minted record receives.
    pub fn generate_token_id(&self) -> (r: String)
        requires
            self.nfts@.len() < usize::MAX,
        ensures
            r@ == token_id_of((self.nfts@.len() + 1) as nat),
    {
        let count = self.nfts.len() + 1;
        let digits = u64_to_string_padded(count as u64, 8);
        let s = "GENE-".to_owned();
        s.concat(digits.as_str())
    }

    /// The rarity tier of a fingerprint: counts the hex letter
    /// digits and maps the count through the fixed thresholds.
    /// Deterministic and total over all strings.
    pub fn determine_rarity(&self, xml_hash: &str) -> (r: String)
        ensures
            r@ == rarity_name(hex_letter_count(xml_hash@)),
    {
        let n = xml_hash.unicode_len();
        let mut count: usize = 0;
        let mut i: usize = 0;
        while i < n
            invariant
                n == xml_hash@.len(),
                i <= n,
                count == hex_letter_count(xml_hash@.take(i as int)),
                count <= i,
            decreases n - i,
        {
            let c = xml_hash.get_char(i);
            proof {
                assert(xml_hash@.take(i + 1 as int).drop_last() =~= xml_hash@.take(i as int));
                assert(xml_hash@.take(i + 1 as int).last() == xml_hash@[i as int]);
            }
            if c == 'a' || c == 'b' || c == 'c' || c == 'd' || c == 'e' || c == 'f' {
                count = count + 1;
            }
            i = i + 1;
        }
        proof {
            assert(xml_hash@.take(n as int) =~= xml_hash@);
        }
        if count <= 2 {
            "Common".to_owned()
        } else if count <= 4 {
            "Rare".to_owned()
        } else if count <= 6 {
            "Epic".to_owned()
        } else {
            "Legendary".to_owned()
        }
    }
}

/// The attributes a minted record carries: the fingerprint, the
/// tier, and the content size.
pub open spec fn mint_attrs(fp: Seq<char>, rarity: Seq<char>, size: nat) -> Seq<AttrV> {
    seq![
        AttrV { trait_type: "XML Hash"@, value: fp },
        AttrV { trait_type: "Rarity"@, value: rarity },
        AttrV { trait_type: "File Size"@, value: dec_str(size) + " bytes"@ },
    ]
}

impl AppState {
    /// Renders the procedural image for a hex fingerprint and packs
    /// it as a base64 payload. Yields nothing when the string is not
    /// hex or encodes fewer than four bytes.
    pub fn generate_xml_visualization(&self, xml_hash: &str) -> (r: Option<String>)
        ensures
            r is Some <==> (is_hex_seq(xml_hash@) && xml_hash@.len() >= 8),
            r matches Some(v) ==> v@ == base64_of(svg_of(hex_decode_spec(xml_hash@))),
    {
        match hex_decode(xml_hash) {
            None => None,
            Some(bytes) => {
                proof {
                    lemma_hex_decode_len(xml_hash@);
                }
                if bytes.len() < 4 {
                    None
                } else {
                    let svg = render_svg(&bytes);
                    proof {
                        assert(svg@.len() <= usize::MAX / 8);
                    }
                    Some(base64_encode(svg.as_str()))
                }
            },
        }
    }

    /// Mints a collectible from an upload: validates the required
    /// fields, fingerprints the content, derives tier and image, and
    /// registers the record under a fresh identifier owned by the
    /// uploading wallet.
    pub fn mint_nft(&mut self, req: XMLUploadRequest) -> (r: Result<NFT, MarketError>)
        requires
            old(self).wf(),
            old(self).nfts@.len() < usize::MAX,
        ensures
            final(self).wf(),
            final(self).listings_v() == old(self).listings_v(),
            final(self).txs_v() == old(self).txs_v(),
            (req.name@.len() == 0 || req.description@.len() == 0 || req.xml_file@.len() == 0
                || req.wallet_address@.len() == 0) ==> (r matches Err(e) && e
                == MarketError::Validation),
            r is Err ==> final(self).nfts_v() == old(self).nfts_v() && (r matches Err(e) && e
                == MarketError::Validation),
            (req.name@.len() > 0 && req.description@.len() > 0 && req.xml_file@.len() > 0
                && req.wallet_address@.len() > 0 && (forall|i: int|
                0 <= i < old(self).nfts_v().len() ==> (#[trigger] old(self).nfts_v()[i]).id.len()
                    != 36)) ==> r is Ok,
            r is Err ==> (req.name@.len() == 0 || req.description@.len() == 0
                || req.xml_file@.len() == 0 || req.wallet_address@.len() == 0 || exists|i: int|
                0 <= i < old(self).nfts_v().len() && (#[trigger] old(self).nfts_v()[i]).id.len()
                    == 36),
            r matches Ok(n) ==> {
                &&& req.name@.len() > 0 && req.description@.len() > 0 && req.xml_file@.len() > 0
                    && req.wallet_address@.len() > 0
                &&& final(self).nfts_v() == old(self).nfts_v().push(n@)
                &&& !has_nft(old(self).nfts_v(), n@.id)
                &&& n@.id.len() == 36
                &&& n@.owner == req.wallet_address@
                &&& n@.xml_hash == fingerprint_of(req.xml_file@)
                &&& n@.xml_hash.len() == 64
                &&& n@.rarity == rarity_name(hex_letter_count(fingerprint_of(req.xml_file@)))
                &&& n@.token_id == token_id_of((old(self).nfts@.len() + 1) as nat)
                &&& !n@.is_listed
                &&& n@.price is None
                &&& n@.listing_date is None
                &&& n@.metadata.name == req.name@
                &&& n@.metadata.description == req.description@
                &&& n@.metadata.external_url == req.external_url@
                &&& n@.metadata.license == req.license@
                &&& n@.metadata.image == "data:image/svg+xml;base64,"@ + base64_of(
                    svg_of(sha256_of(req.xml_file@)),
                )
                &&& n@.metadata.attributes == mint_attrs(
                    n@.xml_hash,
                    n@.rarity,
                    req.xml_file@.len(),
                )
                &&& n@.xml_content == lossy_utf8(req.xml_file@)
            },
    {
        if req.name.as_str().is_empty() || req.description.as_str().is_empty()
            || req.xml_file.is_empty() || req.wallet_address.as_str().is_empty() {
            return Err(MarketError::Validation);
        }
        let digest = sha256(req.xml_file.as_slice());
        let xml_hash = hex_encode(digest.as_slice());
        proof {
            lemma_hex_of_bytes_len(digest@);
        }
        let svg = render_svg(&digest);
        proof {
            assert(svg@.len() <= usize::MAX / 8);
        }
        let b64 = base64_encode(svg.as_str());
        let mut image = "data:image/svg+xml;base64,".to_owned();
        image.append(b64.as_str());
        let token_id = self.generate_token_id();
        let rarity = self.determine_rarity(xml_hash.as_str());
        let mut size_value = u64_to_string(req.xml_file.len() as u64);
        size_value.append(" bytes");
        let mut attributes: Vec<Attribute> = Vec::new();
        attributes.push(Attribute { trait_type: "XML Hash".to_owned(), value: xml_hash.clone() });
        attributes.push(Attribute { trait_type: "Rarity".to_owned(), value: rarity.clone() });
        attributes.push(Attribute { trait_type: "File Size".to_owned(), value: size_value });
        proof {
            assert(attributes@.map_values(|a: Attribute| a@) =~= mint_attrs(
                xml_hash@,
                rarity@,
                req.xml_file@.len(),
            ));
        }
        let metadata = NFTMetadata {
            name: req.name,
            description: req.description,
            image,
            attributes,
            external_url: req.external_url,
            license: req.license,
            provenance: "Generated from XML upload".to_owned(),
        };
        let xml_content = utf8_lossy(req.xml_file.as_slice());
        let nft = NFT {
            id: new_uuid_string(),
            token_id,
            metadata,
            xml_content,
            xml_hash,
            owner: req.wallet_address,
            rarity,
            created_at: now_millis(),
            price: None,
            is_listed: false,
            listing_date: None,
        };
        let ghost gid = nft@.id;
        let result = nft.clone();
        let outcome = self.add_nft(nft);
        proof {
            assert(gid.len() == 36);
            if outcome is Err {
                // only an identifier collision can fail here, and the
                // stored id it collides with is 36 characters long
                assert(has_nft(old(self).nfts_v(), gid));
                let i = choose|i: int|
                    0 <= i < old(self).nfts_v().len() && (#[trigger] old(
                        self,
                    ).nfts_v()[i]).id == gid;
                assert(old(self).nfts_v()[i].id.len() == 36);
            }
            if (forall|i: int|
                0 <= i < old(self).nfts_v().len() ==> (#[trigger] old(
                    self,
                ).nfts_v()[i]).id.len() != 36) {
                if has_nft(old(self).nfts_v(), gid) {
                    let i = choose|i: int|
                        0 <= i < old(self).nfts_v().len() && (#[trigger] old(
                            self,
                        ).nfts_v()[i]).id == gid;
                    assert(old(self).nfts_v()[i].id.len() != 36);
                    assert(false);
                }
                assert(outcome is Ok);
            }
        }
        match outcome {
            Ok(()) => Ok(result),
            Err(e) => Err(e),
        }
    }
}

/// For every store the operations can produce: at most one active
/// listing exists per collectible id, and each record's listed flag
/// agrees with that existence.
pub proof fn lemma_listing_invariant(
    nfts: Seq<NftV>,
    ls: Seq<ListingV>,
    ts: Seq<TxV>,
    id: Seq<char>,
)
    requires
        wf_state(nfts, ls, ts),
    ensures
        forall|i: int, j: int|
            0 <= i < ls.len() && 0 <= j < ls.len() && i != j && is_active_for(
                #[trigger] ls[i],
                id,
            ) ==> !is_active_for(#[trigger] ls[j], id),
        has_nft(nfts, id) ==> (nft_at(nfts, id).is_listed <==> has_active(ls, id)),
{
    assert forall|i: int, j: int|
        0 <= i < ls.len() && 0 <= j < ls.len() && i != j && is_active_for(
            #[trigger] ls[i],
            id,
        ) implies !is_active_for(#[trigger] ls[j], id) by {
        if is_active_for(ls[j], id) {
            assert(ls[i].nft_id != ls[j].nft_id);
        }
    }
    if has_nft(nfts, id) {
        let k = choose|k: int| 0 <= k < nfts.len() && (#[trigger] nfts[k]).id == id;
        lemma_nft_at_is(nfts, id, k);
        assert(nfts[k].is_listed <==> has_active(ls, nfts[k].id));
    }
}

/// The cross-entity invariant: a record's owner is the buyer of its
/// most recent sale, or is unchanged if the record was never sold.
pub proof fn lemma_ownership_history(
    nfts: Seq<NftV>,
    ls: Seq<ListingV>,
    ts: Seq<TxV>,
    id: Seq<char>,
)
    requires
        wf_state(nfts, ls, ts),
        has_nft(nfts, id),
    ensures
        last_tx_for(ts, id) matches Some(t) ==> t.buyer == nft_at(nfts, id).owner,
{
    let k = choose|k: int| 0 <= k < nfts.len() && (#[trigger] nfts[k]).id == id;
    lemma_nft_at_is(nfts, id, k);
}

/// Counts the open offers.
fn count_active(listings: &Vec<NFTListing>) -> (c: usize)
    ensures
        c == active_of(listing_views(listings@)).len(),
{
    let ghost vs = listing_views(listings@);
    let mut c: usize = 0;
    let mut i: usize = 0;
    while i < listings.len()
        invariant
            i <= listings@.len(),
            vs == listing_views(listings@),
            c == active_of(vs.take(i as int)).len(),
            c <= i,
        decreases listings@.len() - i,
    {
        proof {
            assert(vs.take(i + 1 as int) =~= vs.take(i as int).push(vs[i as int]));
            vs.take(i as int).lemma_filter_push(
                vs[i as int],
                |l: ListingV| l.status == ListingStatus::Active,
            );
        }
        if listings[i].status == ListingStatus::Active {
            c = c + 1;
        }
        i = i + 1;
    }
    proof {
        assert(vs.take(vs.len() as int) =~= vs);
    }
    c
}

/// Sums every recorded sale price. The sum of fewer than `usize`
/// many prices, each below `u64::MAX`, fits in a `u128`.
fn total_volume_of(transactions: &Vec<Transaction>) -> (v: u128)
    ensures
        v == sum_prices(tx_views(transactions@)),
{
    let ghost xs = tx_views(transactions@);
    let mut v: u128 = 0;
    let mut i: usize = 0;
    while i < transactions.len()
        invariant
            i <= transactions@.len(),
            xs == tx_views(transactions@),
            v == sum_prices(xs.take(i as int)),
            v <= (i as int) * (u64::MAX as int),
        decreases transactions@.len() - i,
    {
        proof {
            assert(xs.take(i + 1 as int).drop_last() =~= xs.take(i as int));
            assert(xs.take(i + 1 as int).last() == xs[i as int]);
            assert(v + xs[i as int].price <= (i as int + 1) * (u64::MAX as int)) by (nonlinear_arith)
                requires
                    v <= (i as int) * (u64::MAX as int),
                    xs[i as int].price <= u64::MAX,
            ;
            assert((i as int + 1) * (u64::MAX as int) <= (usize::MAX as int) * (u64::MAX as int))
                by (nonlinear_arith)
                requires
                    i as int + 1 <= usize::MAX as int,
            ;
            assert((usize::MAX as int) * (u64::MAX as int) < u128::MAX as int) by (nonlinear_arith)
                requires
                    usize::MAX as int <= u64::MAX as int,
            ;
        }
        v = v + (transactions[i].price as u128);
        i = i + 1;
    }
    proof {
        assert(xs.take(xs.len() as int) =~= xs);
    }
    v
}

/// The lowest asking price among open offers, if any offer is open.
fn floor_of(listings: &Vec<NFTListing>) -> (r: Option<u64>)
    ensures
        r is Some <==> exists|k: int|
            0 <= k < listing_views(listings@).len() && (#[trigger] listing_views(
                listings@,
            )[k]).status == ListingStatus::Active,
        r matches Some(p) ==> (exists|k: int|
            0 <= k < listing_views(listings@).len() && (#[trigger] listing_views(
                listings@,
            )[k]).status == ListingStatus::Active && listing_views(listings@)[k].price == p) && (
        forall|k: int|
            0 <= k < listing_views(listings@).len() && (#[trigger] listing_views(
                listings@,
            )[k]).status == ListingStatus::Active ==> p <= listing_views(listings@)[k].price),
{
    let ghost vs = listing_views(listings@);
    let mut r: Option<u64> = None;
    let mut i: usize = 0;
    while i < listings.len()
        invariant
            i <= listings@.len(),
            vs == listing_views(listings@),
            r is Some <==> exists|k: int|
                0 <= k < i && (#[trigger] vs[k]).status == ListingStatus::Active,
            r matches Some(p) ==> (exists|k: int|
                0 <= k < i && (#[trigger] vs[k]).status == ListingStatus::Active && vs[k].price
                    == p) && (forall|k: int|
                0 <= k < i && (#[trigger] vs[k]).status == ListingStatus::Active ==> p
                    <= vs[k].price),
        decreases listings@.len() - i,
    {
        proof {
            assert(vs[i as int] == listings@[i as int]@);
        }
        if listings[i].status == ListingStatus::Active {
            let p = listings[i].price;
            proof {
                assert(vs[i as int].status == ListingStatus::Active && vs[i as int].price == p);
            }
            match r {
                None => {
                    r = Some(p);
                },
                Some(m) => {
                    if p < m {
                        r = Some(p);
                    }
                },
            }
        }
        i = i + 1;
    }
    r
}

/// Some position of `idx` holds the value `j`.
pub open spec fn position_found(idx: Seq<usize>, j: int) -> bool {
    exists|k: int| 0 <= k < idx.len() && (#[trigger] idx[k]) as int == j
}

/// All log positions, sorted into recency order.
fn recent_indices(transactions: &Vec<Transaction>) -> (idx: Vec<usize>)
    ensures
        idx@.len() == transactions@.len(),
        forall|k: int| 0 <= k < idx@.len() ==> (#[trigger] idx@[k]) < transactions@.len(),
        forall|k: int, l: int|
            0 <= k < l < idx@.len() ==> precedes(
                tx_views(transactions@),
                idx@[k] as int,
                idx@[l] as int,
            ),
        forall|j: int| 0 <= j < transactions@.len() ==> #[trigger] position_found(idx@, j),
{
    let ghost ts = tx_views(transactions@);
    let mut idx: Vec<usize> = Vec::new();
    let mut i: usize = 0;
    while i < transactions.len()
        invariant
            i <= transactions@.len(),
            ts == tx_views(transactions@),
            idx@.len() == i,
            forall|k: int| 0 <= k < idx@.len() ==> (#[trigger] idx@[k]) < i,
            forall|k: int, l: int|
                0 <= k < l < idx@.len() ==> precedes(ts, idx@[k] as int, idx@[l] as int),
            forall|j: int| 0 <= j < i ==> #[trigger] position_found(idx@, j),
        decreases transactions@.len() - i,
    {
        let mut pos: usize = 0;
        while pos < idx.len() && transactions[idx[pos]].timestamp >= transactions[i].timestamp
            invariant
                pos <= idx@.len(),
                idx@.len() == i,
                i < transactions@.len(),
                ts == tx_views(transactions@),
                forall|k: int| 0 <= k < idx@.len() ==> (#[trigger] idx@[k]) < i,
                forall|k: int|
                    0 <= k < pos ==> ts[(#[trigger] idx@[k]) as int].timestamp >= ts[i as int].timestamp,
            decreases idx@.len() - pos,
        {
            pos = pos + 1;
        }
        let ghost prev = idx@;
        idx.insert(pos, i);
        proof {
            prev.insert_ensures(pos as int, i);
            assert forall|k: int, l: int| 0 <= k < l < idx@.len() implies precedes(
                ts,
                idx@[k] as int,
                idx@[l] as int,
            ) by {
                if l < pos {
                    assert(idx@[k] == prev[k] && idx@[l] == prev[l]);
                } else if l == pos {
                    assert(idx@[k] == prev[k]);
                    assert(idx@[l] as int == i);
                    assert(ts[prev[k] as int].timestamp >= ts[i as int].timestamp);
                    assert(prev[k] < i);
                } else if k < pos {
                    assert(idx@[k] == prev[k] && idx@[l] == prev[l - 1]);
                } else if k == pos {
                    assert(idx@[k] as int == i && idx@[l] == prev[l - 1]);
                    assert(l - 1 >= pos);
                    if l - 1 == pos {
                        assert(ts[prev[pos as int] as int].timestamp < ts[i as int].timestamp);
                    } else {
                        assert(precedes(ts, prev[pos as int] as int, prev[l - 1] as int));
                        assert(ts[prev[pos as int] as int].timestamp < ts[i as int].timestamp);
                        assert(ts[prev[l - 1] as int].timestamp <= ts[prev[pos as int] as int].timestamp);
                    }
                } else {
                    assert(idx@[k] == prev[k - 1] && idx@[l] == prev[l - 1]);
                }
            }
            assert forall|j: int| 0 <= j < i + 1 implies #[trigger] position_found(idx@, j) by {
                if j == i {
                    assert(idx@[pos as int] as int == i);
                } else {
                    assert(position_found(prev, j));
                    let k0 = choose|k: int| 0 <= k < prev.len() && (#[trigger] prev[k]) as int == j;
                    if k0 < pos {
                        assert(idx@[k0] as int == j);
                    } else {
                        assert(idx@[k0 + 1] as int == j);
                    }
                }
            }
        }
        i = i + 1;
    }
    idx
}

/// The `n` most recent transactions: latest timestamps first, ties
/// in log order.
fn recent_of(transactions: &Vec<Transaction>, n: usize) -> (r: Vec<Transaction>)
    ensures
        is_recent_selection(tx_views(transactions@), tx_views(r@), n as nat),
{
    let ghost ts = tx_views(transactions@);
    let idx = recent_indices(transactions);
    let m = if n < transactions.len() {
        n
    } else {
        transactions.len()
    };
    let mut out: Vec<Transaction> = Vec::new();
    let mut k: usize = 0;
    while k < m
        invariant
            k <= m,
            m <= transactions@.len(),
            m <= n,
            m == (if n <= transactions@.len() {
                n as int
            } else {
                transactions@.len() as int
            }),
            ts == tx_views(transactions@),
            idx@.len() == transactions@.len(),
            forall|q: int| 0 <= q < idx@.len() ==> (#[trigger] idx@[q]) < transactions@.len(),
            forall|q: int, l: int|
                0 <= q < l < idx@.len() ==> precedes(ts, idx@[q] as int, idx@[l] as int),
            forall|j: int| 0 <= j < transactions@.len() ==> #[trigger] position_found(idx@, j),
            out@.len() == k,
            forall|q: int| 0 <= q < k ==> tx_views(out@)[q] == ts[idx@[q] as int],
        decreases m - k,
    {
        let ghost prev = out@;
        out.push(transactions[idx[k]].clone());
        proof {
            assert(tx_views(out@) =~= tx_views(prev).push(ts[idx@[k as int] as int]));
        }
        k = k + 1;
    }
    proof {
        let sel = Seq::new(m as nat, |q: int| idx@[q] as int);
        assert forall|q: int, j: int|
            0 <= q < sel.len() && 0 <= j < ts.len() && !sel.contains(j) implies precedes(
            ts,
            sel[q],
            j,
        ) by {
            assert(position_found(idx@, j));
            let k0 = choose|k0: int| 0 <= k0 < idx@.len() && (#[trigger] idx@[k0]) as int == j;
            if k0 < m {
                assert(sel[k0] == j);
                assert(sel.contains(j));
            } else {
                assert(precedes(ts, idx@[q] as int, idx@[k0] as int));
            }
        }
        assert(selection_witness(ts, tx_views(out@), n as nat, sel));
    }
    out
}

/// A copy of `n` with its ownership and sale state replaced.
fn record_with_sale_state(
    n: &NFT,
    owner: String,
    price: Option<u64>,
    is_listed: bool,
    listing_date: Option<i64>,
) -> (r: NFT)
    ensures
        r@ == (NftV { owner: owner@, price, is_listed, listing_date, ..n@ }),
{
    NFT {
        id: n.id.clone(),
        token_id: n.token_id.clone(),
        metadata: n.metadata.clone(),
        xml_content: n.xml_content.clone(),
        xml_hash: n.xml_hash.clone(),
        owner,
        rarity: n.rarity.clone(),
        created_at: n.created_at,
        price,
        is_listed,
        listing_date,
    }
}

/// A synthetic settlement reference: `0x` followed by 32 hex digits.
fn make_tx_hash() -> (r: String)
    ensures
        r@.len() == 34,
{
    let bytes = new_uuid_bytes();
    let hx = hex_encode(bytes.as_slice());
    proof {
        lemma_hex_of_bytes_len(bytes@);
        reveal_strlit("0x");
    }
    let mut s = "0x".to_owned();
    s.append(hx.as_str());
    s
}

/// The unique active index realises `active_at`.
proof fn lemma_active_at_is(ls: Seq<ListingV>, id: Seq<char>, j: int)
    requires
        at_most_one_active(ls),
        0 <= j < ls.len(),
        is_active_for(ls[j], id),
    ensures
        has_active(ls, id),
        active_at(ls, id) == ls[j],
{
    assert(has_active(ls, id));
    let k = choose|k: int| 0 <= k < ls.len() && is_active_for(#[trigger] ls[k], id);
    assert(k == j);
}

/// Closing the active listing for an id leaves no active listing
/// for that id and does not disturb any other id.
proof fn lemma_has_active_update_inactive(ls: Seq<ListingV>, j: int, st: ListingStatus)
    requires
        at_most_one_active(ls),
        0 <= j < ls.len(),
        ls[j].status == ListingStatus::Active,
        st != ListingStatus::Active,
    ensures
        !has_active(ls.update(j, ListingV { status: st, ..ls[j] }), ls[j].nft_id),
        forall|id2: Seq<char>|
            id2 != ls[j].nft_id ==> has_active(
                ls.update(j, ListingV { status: st, ..ls[j] }),
                id2,
            ) == has_active(ls, id2),
        at_most_one_active(ls.update(j, ListingV { status: st, ..ls[j] })),
{
    let ls2 = ls.update(j, ListingV { status: st, ..ls[j] });
    assert(!has_active(ls2, ls[j].nft_id)) by {
        if has_active(ls2, ls[j].nft_id) {
            let k = choose|k: int|
                0 <= k < ls2.len() && is_active_for(#[trigger] ls2[k], ls[j].nft_id);
            assert(k != j);
            assert(ls2[k] == ls[k]);
        }
    }
    assert forall|id2: Seq<char>| id2 != ls[j].nft_id implies has_active(ls2, id2)
        == has_active(ls, id2) by {
        if has_active(ls2, id2) {
            let k = choose|k: int| 0 <= k < ls2.len() && is_active_for(#[trigger] ls2[k], id2);
            assert(k != j);
            assert(ls2[k] == ls[k]);
            assert(has_active(ls, id2));
        }
        if has_active(ls, id2) {
            let k = choose|k: int| 0 <= k < ls.len() && is_active_for(#[trigger] ls[k], id2);
            assert(k != j);
            assert(ls2[k] == ls[k]);
            assert(has_active(ls2, id2));
        }
    }
    assert forall|a: int, b: int|
        0 <= a < ls2.len() && 0 <= b < ls2.len() && a != b && (#[trigger] ls2[a]).status
            == ListingStatus::Active && (#[trigger] ls2[b]).status == ListingStatus::Active
        implies ls2[a].nft_id != ls2[b].nft_id by {
        assert(a != j && b != j);
        assert(ls2[a] == ls[a] && ls2[b] == ls[b]);
    }
}

/// Pushing a transaction updates the most recent sale for exactly
/// its own collectible id.
proof fn lemma_last_tx_push(ts: Seq<TxV>, t: TxV, id: Seq<char>)
    ensures
        last_tx_for(ts.push(t), id) == (if t.nft_id == id {
            Some(t)
        } else {
            last_tx_for(ts, id)
        }),
{
    let ts2 = ts.push(t);
    assert(ts2.last() == t);
    assert(ts2.drop_last() =~= ts);
}

/// Two record sequences that agree pointwise on ids carry the same
/// ids.
proof fn lemma_same_ids_has_nft(a: Seq<NftV>, b: Seq<NftV>, id: Seq<char>)
    requires
        a.len() == b.len(),
        forall|i: int| 0 <= i < a.len() ==> (#[trigger] a[i]).id == (#[trigger] b[i]).id,
    ensures
        has_nft(a, id) == has_nft(b, id),
{
    if has_nft(a, id) {
        let k = choose|k: int| 0 <= k < a.len() && (#[trigger] a[k]).id == id;
        assert(b[k].id == id);
    }
    if has_nft(b, id) {
        let k = choose|k: int| 0 <= k < b.len() && (#[trigger] b[k]).id == id;
        assert(a[k].id == id);
    }
}

/// Opening a listing preserves well-formedness.
proof fn lemma_wf_after_open(
    nfts: Seq<NftV>,
    ls: Seq<ListingV>,
    ts: Seq<TxV>,
    i: int,
    l: ListingV,
    rec: NftV,
)
    requires
        wf_state(nfts, ls, ts),
        0 <= i < nfts.len(),
        l.nft_id == nfts[i].id,
        l.status == ListingStatus::Active,
        l.price > 0,
        !has_active(ls, nfts[i].id),
        rec == (NftV {
            is_listed: true,
            price: Some(l.price),
            listing_date: Some(l.listed_at),
            ..nfts[i]
        }),
    ensures
        wf_state(nfts.update(i, rec), ls.push(l), ts),
{
    let nfts2 = nfts.update(i, rec);
    let ls2 = ls.push(l);
    assert(forall|k: int|
        0 <= k < nfts2.len() ==> (#[trigger] nfts2[k]).id == nfts[k].id && nfts2[k].owner
            == nfts[k].owner);
    assert(ids_unique(nfts2));
    assert(all_records_ok(nfts2));
    assert(listings_reference_nfts(nfts2, ls2)) by {
        assert forall|k: int| 0 <= k < ls2.len() implies has_nft(
            nfts2,
            (#[trigger] ls2[k]).nft_id,
        ) by {
            if k < ls.len() {
                assert(ls2[k] == ls[k]);
                lemma_same_ids_has_nft(nfts, nfts2, ls[k].nft_id);
            } else {
                assert(ls2[k] == l);
                assert(nfts2[i].id == l.nft_id);
            }
        }
    }
    assert(listing_prices_positive(ls2)) by {
        assert forall|k: int| 0 <= k < ls2.len() implies (#[trigger] ls2[k]).price > 0 by {
            if k < ls.len() {
                assert(ls2[k] == ls[k]);
            }
        }
    }
    assert(at_most_one_active(ls2)) by {
        assert forall|a: int, b: int|
            0 <= a < ls2.len() && 0 <= b < ls2.len() && a != b && (#[trigger] ls2[a]).status
                == ListingStatus::Active && (#[trigger] ls2[b]).status == ListingStatus::Active
            implies ls2[a].nft_id != ls2[b].nft_id by {
            if a < ls.len() && b < ls.len() {
                assert(ls2[a] == ls[a] && ls2[b] == ls[b]);
            } else if a == ls.len() {
                assert(ls2[b] == ls[b]);
                if ls[b].nft_id == l.nft_id {
                    assert(is_active_for(ls[b], nfts[i].id));
                    assert(has_active(ls, nfts[i].id));
                }
            } else {
                assert(ls2[a] == ls[a]);
                if ls[a].nft_id == l.nft_id {
                    assert(is_active_for(ls[a], nfts[i].id));
                    assert(has_active(ls, nfts[i].id));
                }
            }
        }
    }
    assert(listed_flags_agree(nfts2, ls2)) by {
        assert forall|k: int| 0 <= k < nfts2.len() implies ((#[trigger] nfts2[k]).is_listed
            <==> has_active(ls2, nfts2[k].id)) by {
            if k == i {
                assert(is_active_for(ls2[ls.len() as int], rec.id));
                assert(has_active(ls2, rec.id));
            } else {
                assert(nfts2[k] == nfts[k]);
                if has_active(ls, nfts[k].id) {
                    let m = choose|m: int|
                        0 <= m < ls.len() && is_active_for(#[trigger] ls[m], nfts[k].id);
                    assert(ls2[m] == ls[m]);
                    assert(has_active(ls2, nfts[k].id));
                }
                if has_active(ls2, nfts[k].id) {
                    let m = choose|m: int|
                        0 <= m < ls2.len() && is_active_for(#[trigger] ls2[m], nfts[k].id);
                    if m < ls.len() {
                        assert(ls2[m] == ls[m]);
                        assert(has_active(ls, nfts[k].id));
                    } else {
                        assert(ls2[m] == l);
                        assert(nfts[k].id == nfts[i].id);
                        assert(false);
                    }
                }
            }
        }
    }
    assert(txs_reference_nfts(nfts2, ts)) by {
        assert forall|k: int| 0 <= k < ts.len() implies has_nft(
            nfts2,
            (#[trigger] ts[k]).nft_id,
        ) by {
            lemma_same_ids_has_nft(nfts, nfts2, ts[k].nft_id);
        }
    }
    assert(owners_follow_sales(nfts2, ts)) by {
        assert forall|k: int|
            0 <= k < nfts2.len() implies (last_tx_for(ts, (#[trigger] nfts2[k]).id) matches Some(
            t,
        ) ==> t.buyer == nfts2[k].owner) by {
            assert(nfts2[k].id == nfts[k].id && nfts2[k].owner == nfts[k].owner);
        }
    }
}

/// Settling a sale preserves well-formedness.
proof fn lemma_wf_after_sale(
    nfts: Seq<NftV>,
    ls: Seq<ListingV>,
    ts: Seq<TxV>,
    i: int,
    j: int,
    t: TxV,
    rec: NftV,
    closed: ListingV,
)
    requires
        wf_state(nfts, ls, ts),
        0 <= i < nfts.len(),
        0 <= j < ls.len(),
        is_active_for(ls[j], nfts[i].id),
        t.nft_id == nfts[i].id,
        t.buyer == rec.owner,
        rec == (NftV {
            owner: rec.owner,
            is_listed: false,
            price: None,
            listing_date: None,
            ..nfts[i]
        }),
        closed == (ListingV { status: ListingStatus::Sold, ..ls[j] }),
    ensures
        wf_state(nfts.update(i, rec), ls.update(j, closed), ts.push(t)),
{
    let nfts2 = nfts.update(i, rec);
    let ls2 = ls.update(j, closed);
    let ts2 = ts.push(t);
    assert(forall|k: int| 0 <= k < nfts2.len() ==> (#[trigger] nfts2[k]).id == nfts[k].id);
    assert(ids_unique(nfts2));
    assert(all_records_ok(nfts2));
    lemma_has_active_update_inactive(ls, j, ListingStatus::Sold);
    assert(listings_reference_nfts(nfts2, ls2)) by {
        assert forall|k: int| 0 <= k < ls2.len() implies has_nft(
            nfts2,
            (#[trigger] ls2[k]).nft_id,
        ) by {
            if k == j {
                assert(ls2[k].nft_id == ls[j].nft_id);
            } else {
                assert(ls2[k] == ls[k]);
            }
            lemma_same_ids_has_nft(nfts, nfts2, ls2[k].nft_id);
        }
    }
    assert(listing_prices_positive(ls2)) by {
        assert forall|k: int| 0 <= k < ls2.len() implies (#[trigger] ls2[k]).price > 0 by {
            if k != j {
                assert(ls2[k] == ls[k]);
            }
        }
    }
    assert(at_most_one_active(ls2));
    assert(listed_flags_agree(nfts2, ls2)) by {
        assert forall|k: int| 0 <= k < nfts2.len() implies ((#[trigger] nfts2[k]).is_listed
            <==> has_active(ls2, nfts2[k].id)) by {
            if k == i {
                assert(nfts2[k] == rec);
                assert(!has_active(ls2, ls[j].nft_id));
            } else {
                assert(nfts2[k] == nfts[k]);
                assert(nfts[k].id != nfts[i].id);
                assert(has_active(ls2, nfts[k].id) == has_active(ls, nfts[k].id));
            }
        }
    }
    assert(txs_reference_nfts(nfts2, ts2)) by {
        assert forall|k: int| 0 <= k < ts2.len() implies has_nft(
            nfts2,
            (#[trigger] ts2[k]).nft_id,
        ) by {
            if k < ts.len() {
                assert(ts2[k] == ts[k]);
                lemma_same_ids_has_nft(nfts, nfts2, ts[k].nft_id);
            } else {
                assert(ts2[k] == t);
                assert(nfts2[i].id == t.nft_id);
            }
        }
    }
    assert(owners_follow_sales(nfts2, ts2)) by {
        assert forall|k: int|
            0 <= k < nfts2.len() implies (last_tx_for(ts2, (#[trigger] nfts2[k]).id)
            matches Some(u) ==> u.buyer == nfts2[k].owner) by {
            lemma_last_tx_push(ts, t, nfts2[k].id);
            if k == i {
                assert(nfts2[k].id == t.nft_id);
                assert(last_tx_for(ts2, nfts2[k].id) == Some(t));
            } else {
                assert(nfts2[k] == nfts[k]);
                assert(nfts2[k].id != t.nft_id);
            }
        }
    }
}

/// Cancelling a listing preserves well-formedness.
proof fn lemma_wf_after_cancel(
    nfts: Seq<NftV>,
    ls: Seq<ListingV>,
    ts: Seq<TxV>,
    i: int,
    j: int,
    rec: NftV,
    closed: ListingV,
)
    requires
        wf_state(nfts, ls, ts),
        0 <= i < nfts.len(),
        0 <= j < ls.len(),
        is_active_for(ls[j], nfts[i].id),
        rec == (NftV { is_listed: false, price: None, listing_date: None, ..nfts[i] }),
        closed == (ListingV { status: ListingStatus::Cancelled, ..ls[j] }),
    ensures
        wf_state(nfts.update(i, rec), ls.update(j, closed), ts),
{
    let nfts2 = nfts.update(i, rec);
    let ls2 = ls.update(j, closed);
    assert(forall|k: int|
        0 <= k < nfts2.len() ==> (#[trigger] nfts2[k]).id == nfts[k].id && nfts2[k].owner
            == nfts[k].owner);
    assert(ids_unique(nfts2));
    assert(all_records_ok(nfts2));
    lemma_has_active_update_inactive(ls, j, ListingStatus::Cancelled);
    assert(listings_reference_nfts(nfts2, ls2)) by {
        assert forall|k: int| 0 <= k < ls2.len() implies has_nft(
            nfts2,
            (#[trigger] ls2[k]).nft_id,
        ) by {
            if k == j {
                assert(ls2[k].nft_id == ls[j].nft_id);
            } else {
                assert(ls2[k] == ls[k]);
            }
            lemma_same_ids_has_nft(nfts, nfts2, ls2[k].nft_id);
        }
    }
    assert(listing_prices_positive(ls2)) by {
        assert forall|k: int| 0 <= k < ls2.len() implies (#[trigger] ls2[k]).price > 0 by {
            if k != j {
                assert(ls2[k] == ls[k]);
            }
        }
    }
    assert(at_most_one_active(ls2));
    assert(listed_flags_agree(nfts2, ls2)) by {
        assert forall|k: int| 0 <= k < nfts2.len() implies ((#[trigger] nfts2[k]).is_listed
            <==> has_active(ls2, nfts2[k].id)) by {
            if k == i {
                assert(nfts2[k] == rec);
                assert(!has_active(ls2, ls[j].nft_id));
            } else {
                assert(nfts2[k] == nfts[k]);
                assert(nfts[k].id != nfts[i].id);
                assert(has_active(ls2, nfts[k].id) == has_active(ls, nfts[k].id));
            }
        }
    }
    assert(txs_reference_nfts(nfts2, ts)) by {
        assert forall|k: int| 0 <= k < ts.len() implies has_nft(
            nfts2,
            (#[trigger] ts[k]).nft_id,
        ) by {
            lemma_same_ids_has_nft(nfts, nfts2, ts[k].nft_id);
        }
    }
    assert(owners_follow_sales(nfts2, ts)) by {
        assert forall|k: int|
            0 <= k < nfts2.len() implies (last_tx_for(ts, (#[trigger] nfts2[k]).id)
            matches Some(u) ==> u.buyer == nfts2[k].owner) by {
            assert(nfts2[k].id == nfts[k].id && nfts2[k].owner == nfts[k].owner);
        }
    }
}

/// The unique matching index realises `nft_at`.
proof fn lemma_nft_at_is(nfts: Seq<NftV>, id: Seq<char>, i: int)
    requires
        ids_unique(nfts),
        0 <= i < nfts.len(),
        nfts[i].id == id,
    ensures
        has_nft(nfts, id),
        nft_at(nfts, id) == nfts[i],
{
    assert(has_nft(nfts, id));
    let j = choose|j: int| 0 <= j < nfts.len() && (#[trigger] nfts[j]).id == id;
    assert(j == i);
}

/// A fresh id occurs in no listing and no transaction, so the
/// cross-collection invariants extend to a fresh, unlisted record.
proof fn lemma_fresh_id_invariants(
    nfts: Seq<NftV>,
    ls: Seq<ListingV>,
    ts: Seq<TxV>,
    rec: NftV,
)
    requires
        wf_state(nfts, ls, ts),
        !has_nft(nfts, rec.id),
        !rec.is_listed,
        rec.price is None,
        rec.listing_date is None,
    ensures
        wf_state(nfts.push(rec), ls, ts),
{
    let nfts2 = nfts.push(rec);
    assert forall|i: int| 0 <= i < nfts.len() implies nfts2[i] == nfts[i] by {}
    assert(ids_unique(nfts2)) by {
        assert forall|i: int, j: int|
            0 <= i < nfts2.len() && 0 <= j < nfts2.len() && i != j implies (
        #[trigger] nfts2[i]).id != (#[trigger] nfts2[j]).id by {
            if i < nfts.len() && j < nfts.len() {
            } else if i == nfts.len() {
                assert(nfts2[j] == nfts[j]);
                if nfts2[i].id == nfts2[j].id {
                    assert(has_nft(nfts, rec.id));
                }
            } else {
                assert(nfts2[i] == nfts[i]);
                if nfts2[i].id == nfts2[j].id {
                    assert(has_nft(nfts, rec.id));
                }
            }
        }
    }
    assert(listings_reference_nfts(nfts2, ls)) by {
        assert forall|i: int| 0 <= i < ls.len() implies has_nft(
            nfts2,
            (#[trigger] ls[i]).nft_id,
        ) by {
            let k = choose|k: int| 0 <= k < nfts.len() && (#[trigger] nfts[k]).id == ls[i].nft_id;
            assert(nfts2[k].id == ls[i].nft_id);
        }
    }
    assert(txs_reference_nfts(nfts2, ts)) by {
        assert forall|i: int| 0 <= i < ts.len() implies has_nft(
            nfts2,
            (#[trigger] ts[i]).nft_id,
        ) by {
            let k = choose|k: int| 0 <= k < nfts.len() && (#[trigger] nfts[k]).id == ts[i].nft_id;
            assert(nfts2[k].id == ts[i].nft_id);
        }
    }
    assert(listed_flags_agree(nfts2, ls)) by {
        assert forall|i: int| 0 <= i < nfts2.len() implies ((#[trigger] nfts2[i]).is_listed
            <==> has_active(ls, nfts2[i].id)) by {
            if i < nfts.len() {
                assert(nfts2[i] == nfts[i]);
            } else {
                assert(nfts2[i] == rec);
                if has_active(ls, rec.id) {
                    let k = choose|k: int|
                        0 <= k < ls.len() && is_active_for(#[trigger] ls[k], rec.id);
                    assert(has_nft(nfts, ls[k].nft_id));
                }
            }
        }
    }
    assert(owners_follow_sales(nfts2, ts)) by {
        assert forall|i: int|
            0 <= i < nfts2.len() implies (last_tx_for(ts, (#[trigger] nfts2[i]).id) matches Some(
            t,
        ) ==> t.buyer == nfts2[i].owner) by {
            if i < nfts.len() {
                assert(nfts2[i] == nfts[i]);
            } else {
                assert(nfts2[i] == rec);
                lemma_no_ref_no_last_tx(nfts, ts, rec.id);
            }
        }
    }
}

/// A transaction log that references only existing records has no
/// entry for an id that no record carries.
proof fn lemma_no_ref_no_last_tx(nfts: Seq<NftV>, ts: Seq<TxV>, id: Seq<char>)
    requires
        txs_reference_nfts(nfts, ts),
        !has_nft(nfts, id),
    ensures
        last_tx_for(ts, id) is None,
    decreases ts.len(),
{
    if ts.len() > 0 {
        assert(has_nft(nfts, ts[ts.len() - 1].nft_id));
        assert(ts.last().nft_id != id);
        assert(txs_reference_nfts(nfts, ts.drop_last())) by {
            assert forall|i: int| 0 <= i < ts.drop_last().len() implies has_nft(
                nfts,
                (#[trigger] ts.drop_last()[i]).nft_id,
            ) by {
                assert(ts.drop_last()[i] == ts[i]);
            }
        }
        lemma_no_ref_no_last_tx(nfts, ts.drop_last(), id);
    }
}

/// Finds the index of the record carrying `id`.
fn find_nft_index(nfts: &Vec<NFT>, id: &str) -> (r: Option<usize>)
    ensures
        r matches Some(i) ==> i < nfts@.len() && nft_views(nfts@)[i as int].id == id@ && has_nft(
            nft_views(nfts@),
            id@,
        ),
        r is None ==> !has_nft(nft_views(nfts@), id@),
{
    let mut i: usize = 0;
    while i < nfts.len()
        invariant
            i <= nfts@.len(),
            forall|j: int| 0 <= j < i ==> nft_views(nfts@)[j].id != id@,
        decreases nfts@.len() - i,
    {
        if str_eq(nfts[i].id.as_str(), id) {
            return Some(i);
        }
        i = i + 1;
    }
    None
}

/// Finds the index of the active listing for `id`.
fn find_active_index(listings: &Vec<NFTListing>, id: &str) -> (r: Option<usize>)
    ensures
        r matches Some(i) ==> i < listings@.len() && is_active_for(
            listing_views(listings@)[i as int],
            id@,
        ) && has_active(listing_views(listings@), id@),
        r is None ==> !has_active(listing_views(listings@), id@),
{
    let mut i: usize = 0;
    while i < listings.len()
        invariant
            i <= listings@.len(),
            forall|j: int| 0 <= j < i ==> !is_active_for(listing_views(listings@)[j], id@),
        decreases listings@.len() - i,
    {
        let l = &listings[i];
        if l.status == ListingStatus::Active && str_eq(l.nft_id.as_str(), id) {
            proof {
                assert(listing_views(listings@)[i as int] == listings@[i as int]@);
                assert(is_active_for(listing_views(listings@)[i as int], id@));
                assert(has_active(listing_views(listings@), id@));
            }
            return Some(i);
        }
        i = i + 1;
    }
    None
}

} // verus!
