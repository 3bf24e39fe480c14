//! Data model of the marketplace: collectible records, listings,
//! transactions, request/response shapes, and the error taxonomy.
//!
//! Each record type has a mathematical view (`@`) over which the
//! contracts of the library speak. Prices are fixed-point amounts in
//! thousandths of the native token; timestamps are milliseconds.

use vstd::prelude::*;

verus! {

/// One name/value attribute pair attached to a collectible.
#[derive(Debug)]
pub struct Attribute {
    pub trait_type: String,
    pub value: String,
}

pub ghost struct AttrV {
    pub trait_type: Seq<char>,
    pub value: Seq<char>,
}

impl View for Attribute {
    type V = AttrV;

    open spec fn view(&self) -> AttrV {
        AttrV { trait_type: self.trait_type@, value: self.value@ }
    }
}

impl Clone for Attribute {
    fn clone(&self) -> (res: Self)
        ensures
            res == *self,
    {
        Attribute { trait_type: self.trait_type.clone(), value: self.value.clone() }
    }
}

/// Human-readable metadata of a collectible, including the embedded
/// generated image (a data reference with a base64 payload).
#[derive(Debug)]
pub struct NFTMetadata {
    pub name: String,
    pub description: String,
    pub image: String,
    pub attributes: Vec<Attribute>,
    pub external_url: String,
    pub license: String,
    pub provenance: String,
}

pub ghost struct MetaV {
    pub name: Seq<char>,
    pub description: Seq<char>,
    pub image: Seq<char>,
    pub attributes: Seq<AttrV>,
    pub external_url: Seq<char>,
    pub license: Seq<char>,
    pub provenance: Seq<char>,
}

impl View for NFTMetadata {
    type V = MetaV;

    open spec fn view(&self) -> MetaV {
        MetaV {
            name: self.name@,
            description: self.description@,
            image: self.image@,
            attributes: self.attributes@.map_values(|a: Attribute| a@),
            external_url: self.external_url@,
            license: self.license@,
            provenance: self.provenance@,
        }
    }
}

impl Clone for NFTMetadata {
    fn clone(&self) -> (res: Self)
        ensures
            res@ == self@,
    {
        let attributes = self.attributes.clone();
        proof {
            assert(attributes@.map_values(|a: Attribute| a@) =~= self.attributes@.map_values(
                |a: Attribute| a@,
            ));
        }
        NFTMetadata {
            name: self.name.clone(),
            description: self.description.clone(),
            image: self.image.clone(),
            attributes,
            external_url: self.external_url.clone(),
            license: self.license.clone(),
            provenance: self.provenance.clone(),
        }
    }
}

/// One minted collectible record.
///
/// `price` (asking price while listed), `is_listed` and
/// `listing_date` stand or fall together: see [`nft_ok`].
#[derive(Debug)]
pub struct NFT {
    pub id: String,
    pub token_id: String,
    pub metadata: NFTMetadata,
    pub xml_content: String,
    pub xml_hash: String,
    pub owner: String,
    pub rarity: String,
    pub created_at: i64,
    pub price: Option<u64>,
    pub is_listed: bool,
    pub listing_date: Option<i64>,
}

pub ghost struct NftV {
    pub id: Seq<char>,
    pub token_id: Seq<char>,
    pub metadata: MetaV,
    pub xml_content: Seq<char>,
    pub xml_hash: Seq<char>,
    pub owner: Seq<char>,
    pub rarity: Seq<char>,
    pub created_at: i64,
    pub price: Option<u64>,
    pub is_listed: bool,
    pub listing_date: Option<i64>,
}

impl View for NFT {
    type V = NftV;

    open spec fn view(&self) -> NftV {
        NftV {
            id: self.id@,
            token_id: self.token_id@,
            metadata: self.metadata@,
            xml_content: self.xml_content@,
            xml_hash: self.xml_hash@,
            owner: self.owner@,
            rarity: self.rarity@,
            created_at: self.created_at,
            price: self.price,
            is_listed: self.is_listed,
            listing_date: self.listing_date,
        }
    }
}

impl Clone for NFT {
    fn clone(&self) -> (res: Self)
        ensures
            res@ == self@,
    {
        NFT {
            id: self.id.clone(),
            token_id: self.token_id.clone(),
            metadata: self.metadata.clone(),
            xml_content: self.xml_content.clone(),
            xml_hash: self.xml_hash.clone(),
            owner: self.owner.clone(),
            rarity: self.rarity.clone(),
            created_at: self.created_at,
            price: self.price,
            is_listed: self.is_listed,
            listing_date: self.listing_date,
        }
    }
}

/// The record-level invariant: the optional price, the listed flag
/// and the listing date are present together or absent together.
pub open spec fn nft_ok(n: NftV) -> bool {
    &&& n.price is Some <==> n.is_listed
    &&& n.listing_date is Some <==> n.is_listed
}

/// Lifecycle state of a sale offer. `Sold` and `Cancelled` are
/// terminal for the offer they mark.
#[derive(Debug, Clone, Copy, PartialEq, Eq, Structural)]
pub enum ListingStatus {
    Active,
    Sold,
    Cancelled,
}

/// A sale offer for one collectible at a fixed asking price.
#[derive(Debug)]
pub struct NFTListing {
    pub nft_id: String,
    pub price: u64,
    pub seller: String,
    pub listed_at: i64,
    pub status: ListingStatus,
}

pub ghost struct ListingV {
    pub nft_id: Seq<char>,
    pub price: u64,
    pub seller: Seq<char>,
    pub listed_at: i64,
    pub status: ListingStatus,
}

impl View for NFTListing {
    type V = ListingV;

    open spec fn view(&self) -> ListingV {
        ListingV {
            nft_id: self.nft_id@,
            price: self.price,
            seller: self.seller@,
            listed_at: self.listed_at,
            status: self.status,
        }
    }
}

impl Clone for NFTListing {
    fn clone(&self) -> (res: Self)
        ensures
            res@ == self@,
    {
        NFTListing {
            nft_id: self.nft_id.clone(),
            price: self.price,
            seller: self.seller.clone(),
            listed_at: self.listed_at,
            status: self.status,
        }
    }
}

/// An immutable record of one completed sale.
#[derive(Debug)]
pub struct Transaction {
    pub id: String,
    pub nft_id: String,
    pub seller: String,
    pub buyer: String,
    pub price: u64,
    pub transaction_hash: String,
    pub timestamp: i64,
}

pub ghost struct TxV {
    pub id: Seq<char>,
    pub nft_id: Seq<char>,
    pub seller: Seq<char>,
    pub buyer: Seq<char>,
    pub price: u64,
    pub transaction_hash: Seq<char>,
    pub timestamp: i64,
}

impl View for Transaction {
    type V = TxV;

    open spec fn view(&self) -> TxV {
        TxV {
            id: self.id@,
            nft_id: self.nft_id@,
            seller: self.seller@,
            buyer: self.buyer@,
            price: self.price,
            transaction_hash: self.transaction_hash@,
            timestamp: self.timestamp,
        }
    }
}

impl Clone for Transaction {
    fn clone(&self) -> (res: Self)
        ensures
            res@ == self@,
    {
        Transaction {
            id: self.id.clone(),
            nft_id: self.nft_id.clone(),
            seller: self.seller.clone(),
            buyer: self.buyer.clone(),
            price: self.price,
            transaction_hash: self.transaction_hash.clone(),
            timestamp: self.timestamp,
        }
    }
}

/// Fields of an upload request, already decoded from transport.
#[derive(Debug)]
pub struct XMLUploadRequest {
    pub name: String,
    pub description: String,
    pub external_url: String,
    pub license: String,
    pub xml_file: Vec<u8>,
    pub wallet_address: String,
}

#[derive(Debug)]
pub struct XMLUploadResponse {
    pub message: String,
    pub nft: NFT,
}

#[derive(Debug)]
pub struct ListNFTRequest {
    pub nft_id: String,
    pub price: u64,
    pub seller_address: String,
}

#[derive(Debug)]
pub struct BuyNFTRequest {
    pub nft_id: String,
    pub buyer_address: String,
    pub price: u64,
}

#[derive(Debug)]
pub struct ListNFTResponse {
    pub message: String,
    pub listing: NFTListing,
}

#[derive(Debug)]
pub struct BuyNFTResponse {
    pub message: String,
    pub transaction: Transaction,
}

/// Everything a wallet holds: owned records, the listed subset, and
/// the transaction history where the wallet bought or sold.
#[derive(Debug)]
pub struct UserCollection {
    pub wallet_address: String,
    pub owned_nfts: Vec<NFT>,
    pub listed_nfts: Vec<NFT>,
    pub transaction_history: Vec<Transaction>,
}

/// Read-side projections over the ledger and the transaction log.
#[derive(Debug)]
pub struct MarketplaceStats {
    pub total_listings: usize,
    pub total_volume: u128,
    pub recent_transactions: Vec<Transaction>,
    pub floor_price: Option<u64>,
}

/// Why a marketplace operation was rejected. All of these are
/// recoverable client errors; state is left unchanged.
#[derive(Debug, Clone, Copy, PartialEq, Eq, Structural)]
pub enum MarketError {
    /// No collectible (or no listing) under the given id.
    NotFound,
    /// The acting wallet is neither the owner nor the seller required.
    NotOwner,
    /// An active listing already exists for the collectible.
    AlreadyListed,
    /// A listing needs a positive asking price.
    InvalidPrice,
    /// No active listing exists for the collectible.
    NotListed,
    /// The offered price differs from the asking price.
    PriceMismatch,
    /// A required field of a request was missing or empty.
    Validation,
}

pub open spec fn error_message(e: MarketError) -> Seq<char> {
    match e {
        MarketError::NotFound => "NFT not found"@,
        MarketError::NotOwner => "You don't own this NFT"@,
        MarketError::AlreadyListed => "NFT is already listed"@,
        MarketError::InvalidPrice => "Price must be positive"@,
        MarketError::NotListed => "NFT not listed for sale"@,
        MarketError::PriceMismatch => "Price mismatch"@,
        MarketError::Validation => "Missing required field"@,
    }
}

impl MarketError {
    /// A human-readable description, suitable for a client error.
    pub fn message(&self) -> (r: String)
        ensures
            r@ == error_message(*self),
    {
        match self {
            MarketError::NotFound => "NFT not found".to_owned(),
            MarketError::NotOwner => "You don't own this NFT".to_owned(),
            MarketError::AlreadyListed => "NFT is already listed".to_owned(),
            MarketError::InvalidPrice => "Price must be positive".to_owned(),
            MarketError::NotListed => "NFT not listed for sale".to_owned(),
            MarketError::PriceMismatch => "Price mismatch".to_owned(),
            MarketError::Validation => "Missing required field".to_owned(),
        }
    }
}

} // verus!
