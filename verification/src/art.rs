//! Procedural image synthesis: a fixed-format vector image derived
//! deterministically from the fingerprint's raw bytes.
//!
//! The first byte selects one of four styles, the second a color
//! scheme, the third (for the grid style) a layout. Every renderer
//! is a pure function of the bytes: the produced character sequence
//! is pinned exactly by the spec functions below, so two runs on the
//! same fingerprint yield byte-identical output.

use vstd::prelude::*;

use crate::digest::{hex_encode, hex_of_bytes, lemma_hex_of_bytes_len};
use crate::numfmt::{
    dec_str, dec_str_padded, lemma_dec_len_bound, lemma_dec_len_u64, lemma_dec_str_len,
    lemma_dec_str_padded_len, pow10, u64_to_string, u64_to_string_padded,
};

verus! {

/// The four deterministic art styles.
#[derive(Debug, Clone, Copy, PartialEq, Eq, Structural)]
pub enum ArtStyle {
    Heatmap,
    Geometric,
    Helix,
    Fractal,
}

pub open spec fn style_index(d: Seq<u8>) -> int {
    d[0] as int % 4
}

pub open spec fn scheme_index(d: Seq<u8>) -> int {
    d[1] as int % 5
}

pub open spec fn layout_index(d: Seq<u8>) -> int {
    d[2] as int % 3
}

/// The style the first fingerprint byte selects.
pub open spec fn style_of(d: Seq<u8>) -> ArtStyle {
    if style_index(d) == 0 {
        ArtStyle::Heatmap
    } else if style_index(d) == 1 {
        ArtStyle::Geometric
    } else if style_index(d) == 2 {
        ArtStyle::Helix
    } else {
        ArtStyle::Fractal
    }
}

/// Selects the art style from the first fingerprint byte.
pub fn select_style(bytes: &Vec<u8>) -> (s: ArtStyle)
    requires
        bytes@.len() >= 1,
    ensures
        s == style_of(bytes@),
{
    let b = bytes[0] % 4;
    if b == 0 {
        ArtStyle::Heatmap
    } else if b == 1 {
        ArtStyle::Geometric
    } else if b == 2 {
        ArtStyle::Helix
    } else {
        ArtStyle::Fractal
    }
}

/// The color under index `k` of color scheme `scheme`.
pub open spec fn palette_color(scheme: int, k: int) -> Seq<char> {
    if scheme == 0 {
        if k == 0 {
            "#ff6b6b"@
        } else if k == 1 {
            "#4ecdc4"@
        } else if k == 2 {
            "#45b7d1"@
        } else {
            "#f9ca24"@
        }
    } else if scheme == 1 {
        if k == 0 {
            "#6c5ce7"@
        } else if k == 1 {
            "#a29bfe"@
        } else if k == 2 {
            "#fd79a8"@
        } else {
            "#e84393"@
        }
    } else if scheme == 2 {
        if k == 0 {
            "#00b894"@
        } else if k == 1 {
            "#55efc4"@
        } else if k == 2 {
            "#ffeaa7"@
        } else {
            "#fab1a0"@
        }
    } else if scheme == 3 {
        if k == 0 {
            "#2d3436"@
        } else if k == 1 {
            "#636e72"@
        } else if k == 2 {
            "#b2bec3"@
        } else {
            "#dfe6e9"@
        }
    } else {
        if k == 0 {
            "#e17055"@
        } else if k == 1 {
            "#fdcb6e"@
        } else if k == 2 {
            "#00cec9"@
        } else {
            "#0984e3"@
        }
    }
}

proof fn reveal_palette_literals()
    ensures
        forall|scheme: int, k: int| (#[trigger] palette_color(scheme, k)).len() == 7,
{
    reveal_strlit("#ff6b6b");
    reveal_strlit("#4ecdc4");
    reveal_strlit("#45b7d1");
    reveal_strlit("#f9ca24");
    reveal_strlit("#6c5ce7");
    reveal_strlit("#a29bfe");
    reveal_strlit("#fd79a8");
    reveal_strlit("#e84393");
    reveal_strlit("#00b894");
    reveal_strlit("#55efc4");
    reveal_strlit("#ffeaa7");
    reveal_strlit("#fab1a0");
    reveal_strlit("#2d3436");
    reveal_strlit("#636e72");
    reveal_strlit("#b2bec3");
    reveal_strlit("#dfe6e9");
    reveal_strlit("#e17055");
    reveal_strlit("#fdcb6e");
    reveal_strlit("#00cec9");
    reveal_strlit("#0984e3");
}

fn palette_color_str(scheme: u8, k: u8) -> (r: &'static str)
    ensures
        r@ == palette_color(scheme as int, k as int),
        r@.len() == 7,
{
    proof {
        reveal_palette_literals();
        assert(palette_color(scheme as int, k as int).len() == 7);
    }
    if scheme == 0 {
        if k == 0 {
            "#ff6b6b"
        } else if k == 1 {
            "#4ecdc4"
        } else if k == 2 {
            "#45b7d1"
        } else {
            "#f9ca24"
        }
    } else if scheme == 1 {
        if k == 0 {
            "#6c5ce7"
        } else if k == 1 {
            "#a29bfe"
        } else if k == 2 {
            "#fd79a8"
        } else {
            "#e84393"
        }
    } else if scheme == 2 {
        if k == 0 {
            "#00b894"
        } else if k == 1 {
            "#55efc4"
        } else if k == 2 {
            "#ffeaa7"
        } else {
            "#fab1a0"
        }
    } else if scheme == 3 {
        if k == 0 {
            "#2d3436"
        } else if k == 1 {
            "#636e72"
        } else if k == 2 {
            "#b2bec3"
        } else {
            "#dfe6e9"
        }
    } else {
        if k == 0 {
            "#e17055"
        } else if k == 1 {
            "#fdcb6e"
        } else if k == 2 {
            "#00cec9"
        } else {
            "#0984e3"
        }
    }
}

/// The opacity a heatmap cell gets from a byte: the byte scaled to
/// a three-digit fraction of one, or `1` for a full byte.
pub open spec fn opacity_of(i: int) -> Seq<char> {
    if i == 255 {
        "1"@
    } else {
        "0."@ + dec_str_padded((i * 1000 / 255) as nat, 3)
    }
}

fn opacity_str(i: u8) -> (r: String)
    ensures
        r@ == opacity_of(i as int),
        r@.len() <= 5,
{
    if i == 255 {
        proof {
            reveal_strlit("1");
        }
        "1".to_owned()
    } else {
        let p = (i as u64) * 1000 / 255;
        let digits = u64_to_string_padded(p, 3);
        let mut s = "0.".to_owned();
        s.append(digits.as_str());
        proof {
            reveal_strlit("0.");
            assert(pow10(3) == 1000) by {
                reveal_with_fuel(pow10, 4);
            }
            lemma_dec_len_bound(p as nat, 3);
            lemma_dec_str_padded_len(p as nat, 3);
        }
        s
    }
}

/// The translucent white fill of a heatmap cell.
pub open spec fn rgba_fill(i: int) -> Seq<char> {
    "rgba(255,255,255,"@ + opacity_of(i) + ")"@
}

fn rgba_fill_str(i: u8) -> (r: String)
    ensures
        r@ == rgba_fill(i as int),
        r@.len() <= 23,
{
    let op = opacity_str(i);
    let mut s = "rgba(255,255,255,".to_owned();
    s.append(op.as_str());
    s.append(")");
    proof {
        reveal_strlit("rgba(255,255,255,");
        reveal_strlit(")");
    }
    s
}

/// One filled rectangle element.
pub open spec fn rect_spec(x: nat, y: nat, w: nat, h: nat, fill: Seq<char>) -> Seq<char> {
    "<rect x=\""@ + dec_str(x) + "\" y=\""@ + dec_str(y) + "\" width=\""@ + dec_str(w)
        + "\" height=\""@ + dec_str(h) + "\" fill=\""@ + fill + "\"/>"@
}

fn rect_elem(x: u64, y: u64, w: u64, h: u64, fill: &str) -> (r: String)
    ensures
        r@ == rect_spec(x as nat, y as nat, w as nat, h as nat, fill@),
        r@.len() <= 140 + fill@.len(),
{
    let mut s = "<rect x=\"".to_owned();
    let dx = u64_to_string(x);
    s.append(dx.as_str());
    s.append("\" y=\"");
    let dy = u64_to_string(y);
    s.append(dy.as_str());
    s.append("\" width=\"");
    let dw = u64_to_string(w);
    s.append(dw.as_str());
    s.append("\" height=\"");
    let dh = u64_to_string(h);
    s.append(dh.as_str());
    s.append("\" fill=\"");
    s.append(fill);
    s.append("\"/>");
    proof {
        reveal_strlit("<rect x=\"");
        reveal_strlit("\" y=\"");
        reveal_strlit("\" width=\"");
        reveal_strlit("\" height=\"");
        reveal_strlit("\" fill=\"");
        reveal_strlit("\"/>");
        lemma_dec_str_len(x as nat);
        lemma_dec_len_u64(x as nat);
        lemma_dec_str_len(y as nat);
        lemma_dec_len_u64(y as nat);
        lemma_dec_str_len(w as nat);
        lemma_dec_len_u64(w as nat);
        lemma_dec_str_len(h as nat);
        lemma_dec_len_u64(h as nat);
    }
    s
}

/// One filled circle element.
pub open spec fn circle_spec(cx: nat, cy: nat, rad: nat, fill: Seq<char>) -> Seq<char> {
    "<circle cx=\""@ + dec_str(cx) + "\" cy=\""@ + dec_str(cy) + "\" r=\""@ + dec_str(rad)
        + "\" fill=\""@ + fill + "\"/>"@
}

fn circle_elem(cx: u64, cy: u64, rad: u64, fill: &str) -> (r: String)
    ensures
        r@ == circle_spec(cx as nat, cy as nat, rad as nat, fill@),
        r@.len() <= 110 + fill@.len(),
{
    let mut s = "<circle cx=\"".to_owned();
    let dx = u64_to_string(cx);
    s.append(dx.as_str());
    s.append("\" cy=\"");
    let dy = u64_to_string(cy);
    s.append(dy.as_str());
    s.append("\" r=\"");
    let dr = u64_to_string(rad);
    s.append(dr.as_str());
    s.append("\" fill=\"");
    s.append(fill);
    s.append("\"/>");
    proof {
        reveal_strlit("<circle cx=\"");
        reveal_strlit("\" cy=\"");
        reveal_strlit("\" r=\"");
        reveal_strlit("\" fill=\"");
        reveal_strlit("\"/>");
        lemma_dec_str_len(cx as nat);
        lemma_dec_len_u64(cx as nat);
        lemma_dec_str_len(cy as nat);
        lemma_dec_len_u64(cy as nat);
        lemma_dec_str_len(rad as nat);
        lemma_dec_len_u64(rad as nat);
    }
    s
}

/// One unfilled, stroked square frame.
pub open spec fn frame_spec(off: nat, size: nat, color: Seq<char>) -> Seq<char> {
    "<rect x=\""@ + dec_str(off) + "\" y=\""@ + dec_str(off) + "\" width=\""@ + dec_str(size)
        + "\" height=\""@ + dec_str(size) + "\" fill=\"none\" stroke=\""@ + color
        + "\" stroke-width=\"2\"/>"@
}

fn frame_elem(off: u64, size: u64, color: &str) -> (r: String)
    ensures
        r@ == frame_spec(off as nat, size as nat, color@),
        r@.len() <= 160 + color@.len(),
{
    let mut s = "<rect x=\"".to_owned();
    let d1 = u64_to_string(off);
    s.append(d1.as_str());
    s.append("\" y=\"");
    let d2 = u64_to_string(off);
    s.append(d2.as_str());
    s.append("\" width=\"");
    let d3 = u64_to_string(size);
    s.append(d3.as_str());
    s.append("\" height=\"");
    let d4 = u64_to_string(size);
    s.append(d4.as_str());
    s.append("\" fill=\"none\" stroke=\"");
    s.append(color);
    s.append("\" stroke-width=\"2\"/>");
    proof {
        reveal_strlit("<rect x=\"");
        reveal_strlit("\" y=\"");
        reveal_strlit("\" width=\"");
        reveal_strlit("\" height=\"");
        reveal_strlit("\" fill=\"none\" stroke=\"");
        reveal_strlit("\" stroke-width=\"2\"/>");
        lemma_dec_str_len(off as nat);
        lemma_dec_len_u64(off as nat);
        lemma_dec_str_len(size as nat);
        lemma_dec_len_u64(size as nat);
    }
    s
}

/// The opening of a fixed 320x320 canvas, washed with the scheme's
/// base color.
pub open spec fn art_header(d: Seq<u8>) -> Seq<char> {
    "<svg width=\"320\" height=\"320\" xmlns=\"http://www.w3.org/2000/svg\">"@
        + "<rect width=\"100%\" height=\"100%\" fill=\""@ + palette_color(scheme_index(d), 0)
        + "\"/>"@
}

fn art_header_str(bytes: &Vec<u8>) -> (r: String)
    requires
        bytes@.len() >= 2,
    ensures
        r@ == art_header(bytes@),
        r@.len() <= 130,
{
    let mut s = "<svg width=\"320\" height=\"320\" xmlns=\"http://www.w3.org/2000/svg\">".to_owned();
    s.append("<rect width=\"100%\" height=\"100%\" fill=\"");
    let c = palette_color_str(bytes[1] % 5, 0);
    s.append(c);
    s.append("\"/>");
    proof {
        reveal_strlit("<svg width=\"320\" height=\"320\" xmlns=\"http://www.w3.org/2000/svg\">");
        reveal_strlit("<rect width=\"100%\" height=\"100%\" fill=\"");
        reveal_strlit("\"/>");
    }
    s
}

/// Grid dimensions of the heatmap style, by layout: square, wide,
/// or tall.
pub open spec fn heat_cols(d: Seq<u8>) -> nat {
    if layout_index(d) == 0 {
        16
    } else if layout_index(d) == 1 {
        32
    } else {
        8
    }
}

pub open spec fn heat_rows(d: Seq<u8>) -> nat {
    if layout_index(d) == 0 {
        16
    } else if layout_index(d) == 1 {
        8
    } else {
        32
    }
}

/// The heatmap's opening: a canvas sized to the grid, the scheme's
/// base wash, and the first four digest bytes as a hex caption.
pub open spec fn heatmap_header(d: Seq<u8>) -> Seq<char> {
    "<svg width=\""@ + dec_str(heat_cols(d) * 20) + "\" height=\""@ + dec_str(heat_rows(d) * 20)
        + "\" xmlns=\"http://www.w3.org/2000/svg\">"@
        + "<rect width=\"100%\" height=\"100%\" fill=\""@ + palette_color(scheme_index(d), 0)
        + "\"/>"@
        + "<text x=\"8\" y=\"12\" font-family=\"monospace\" font-size=\"8\" fill=\"white\">XML Hash: "@
        + hex_of_bytes(d.take(4)) + "</text>"@
}

/// Cell `k` of the heatmap grid: a square whose opacity follows the
/// digest byte at position `k`, cycling through the digest.
pub open spec fn heatmap_cell(d: Seq<u8>, k: nat) -> Seq<char> {
    rect_spec(
        (k % heat_cols(d)) * 20,
        (k / heat_cols(d)) * 20,
        20,
        20,
        rgba_fill(d[(k % d.len()) as int] as int),
    )
}

/// The heatmap's header followed by its first `k` cells.
pub open spec fn heatmap_body(d: Seq<u8>, k: nat) -> Seq<char>
    decreases k,
{
    if k == 0 {
        heatmap_header(d)
    } else {
        heatmap_body(d, (k - 1) as nat) + heatmap_cell(d, (k - 1) as nat)
    }
}

pub open spec fn heatmap_svg(d: Seq<u8>) -> Seq<char> {
    heatmap_body(d, heat_cols(d) * heat_rows(d)) + "</svg>"@
}

fn heatmap_render(bytes: &Vec<u8>) -> (r: String)
    requires
        bytes@.len() >= 4,
    ensures
        r@ == heatmap_svg(bytes@),
        r@.len() <= 60000,
{
    let layout = bytes[2] % 3;
    let cols: usize = if layout == 0 {
        16
    } else if layout == 1 {
        32
    } else {
        8
    };
    let rows: usize = if layout == 0 {
        16
    } else if layout == 1 {
        8
    } else {
        32
    };
    proof {
        assert(cols as nat == heat_cols(bytes@));
        assert(rows as nat == heat_rows(bytes@));
    }
    let mut s = "<svg width=\"".to_owned();
    let dw = u64_to_string((cols * 20) as u64);
    s.append(dw.as_str());
    s.append("\" height=\"");
    let dh = u64_to_string((rows * 20) as u64);
    s.append(dh.as_str());
    s.append("\" xmlns=\"http://www.w3.org/2000/svg\">");
    s.append("<rect width=\"100%\" height=\"100%\" fill=\"");
    let c = palette_color_str(bytes[1] % 5, 0);
    s.append(c);
    s.append("\"/>");
    s.append(
        "<text x=\"8\" y=\"12\" font-family=\"monospace\" font-size=\"8\" fill=\"white\">XML Hash: ",
    );
    let mut first4: Vec<u8> = Vec::new();
    first4.push(bytes[0]);
    first4.push(bytes[1]);
    first4.push(bytes[2]);
    first4.push(bytes[3]);
    proof {
        assert(first4@ =~= bytes@.take(4));
    }
    let hx = hex_encode(first4.as_slice());
    s.append(hx.as_str());
    s.append("</text>");
    proof {
        reveal_strlit("<svg width=\"");
        reveal_strlit("\" height=\"");
        reveal_strlit("\" xmlns=\"http://www.w3.org/2000/svg\">");
        reveal_strlit("<rect width=\"100%\" height=\"100%\" fill=\"");
        reveal_strlit("\"/>");
        reveal_strlit(
            "<text x=\"8\" y=\"12\" font-family=\"monospace\" font-size=\"8\" fill=\"white\">XML Hash: ",
        );
        reveal_strlit("</text>");
        lemma_dec_str_len((cols * 20) as nat);
        lemma_dec_len_u64((cols * 20) as nat);
        lemma_dec_str_len((rows * 20) as nat);
        lemma_dec_len_u64((rows * 20) as nat);
        lemma_hex_of_bytes_len(bytes@.take(4));
        assert(s@ == heatmap_header(bytes@));
        assert(s@.len() <= 300);
    }
    let count: usize = cols * rows;
    let mut k: usize = 0;
    while k < count
        invariant
            k <= count,
            count == heat_cols(bytes@) * heat_rows(bytes@),
            count <= 256,
            cols >= 1,
            cols as nat == heat_cols(bytes@),
            bytes@.len() >= 4,
            s@ == heatmap_body(bytes@, k as nat),
            s@.len() <= 300 + k * 200,
        decreases count - k,
    {
        let intensity = bytes[k % bytes.len()];
        let fill = rgba_fill_str(intensity);
        let x = ((k % cols) * 20) as u64;
        let y = ((k / cols) * 20) as u64;
        let cell = rect_elem(x, y, 20, 20, fill.as_str());
        s.append(cell.as_str());
        proof {
            assert(cell@ == heatmap_cell(bytes@, k as nat));
            assert(s@ == heatmap_body(bytes@, (k + 1) as nat));
        }
        k = k + 1;
    }
    s.append("</svg>");
    proof {
        reveal_strlit("</svg>");
    }
    s
}

/// How many circles the geometric style draws: one per digest byte,
/// capped at an eight-by-eight grid.
pub open spec fn geo_count(d: Seq<u8>) -> nat {
    if d.len() < 64 {
        d.len()
    } else {
        64
    }
}

/// Circle `k` of the geometric style: placed on an eight-wide grid,
/// sized and colored by the digest byte at `k`.
pub open spec fn geo_circle(d: Seq<u8>, k: nat) -> Seq<char> {
    circle_spec(
        (k % 8) * 40 + 20,
        (k / 8) * 40 + 20,
        (d[k as int] as int % 15 + 5) as nat,
        palette_color(scheme_index(d), d[k as int] as int % 4),
    )
}

pub open spec fn geo_body(d: Seq<u8>, k: nat) -> Seq<char>
    decreases k,
{
    if k == 0 {
        art_header(d)
    } else {
        geo_body(d, (k - 1) as nat) + geo_circle(d, (k - 1) as nat)
    }
}

pub open spec fn geometric_svg(d: Seq<u8>) -> Seq<char> {
    geo_body(d, geo_count(d)) + "</svg>"@
}

fn geometric_render(bytes: &Vec<u8>) -> (r: String)
    requires
        bytes@.len() >= 4,
    ensures
        r@ == geometric_svg(bytes@),
        r@.len() <= 60000,
{
    let mut s = art_header_str(bytes);
    let count: usize = if bytes.len() < 64 {
        bytes.len()
    } else {
        64
    };
    let mut k: usize = 0;
    while k < count
        invariant
            k <= count,
            count == geo_count(bytes@),
            count <= 64,
            bytes@.len() >= 4,
            s@ == geo_body(bytes@, k as nat),
            s@.len() <= 130 + k * 200,
        decreases count - k,
    {
        let b = bytes[k];
        let fill = palette_color_str(bytes[1] % 5, b % 4);
        let circle = circle_elem(
            ((k % 8) * 40 + 20) as u64,
            ((k / 8) * 40 + 20) as u64,
            (b % 15 + 5) as u64,
            fill,
        );
        s.append(circle.as_str());
        proof {
            assert(circle@ == geo_circle(bytes@, k as nat));
            assert(s@ == geo_body(bytes@, (k + 1) as nat));
        }
        k = k + 1;
    }
    s.append("</svg>");
    proof {
        reveal_strlit("</svg>");
    }
    s
}

/// The horizontal swing of the helix at step `k`: a fixed
/// eight-step oscillation around the canvas center.
pub open spec fn osc_pos(k: nat) -> nat {
    let m = k % 8;
    if m == 0 {
        160
    } else if m == 1 {
        174
    } else if m == 2 {
        180
    } else if m == 3 {
        174
    } else if m == 4 {
        160
    } else if m == 5 {
        146
    } else if m == 6 {
        140
    } else {
        146
    }
}

fn osc_pos_val(k: usize) -> (r: u64)
    ensures
        r as nat == osc_pos(k as nat),
        140 <= r <= 180,
{
    let m = k % 8;
    if m == 0 {
        160
    } else if m == 1 {
        174
    } else if m == 2 {
        180
    } else if m == 3 {
        174
    } else if m == 4 {
        160
    } else if m == 5 {
        146
    } else if m == 6 {
        140
    } else {
        146
    }
}

/// How many rungs the helix draws: one per digest byte, capped.
pub open spec fn helix_count(d: Seq<u8>) -> nat {
    if d.len() < 32 {
        d.len()
    } else {
        32
    }
}

/// The left circle of helix rung `k`.
pub open spec fn helix_circle1(d: Seq<u8>, k: nat) -> Seq<char> {
    circle_spec(
        osc_pos(k),
        20 + k * 18,
        (d[k as int] as int % 8 + 3) as nat,
        palette_color(scheme_index(d), (k % 4) as int),
    )
}

/// The right circle of helix rung `k`, mirrored across the center.
pub open spec fn helix_circle2(d: Seq<u8>, k: nat) -> Seq<char> {
    circle_spec(
        (320 - osc_pos(k)) as nat,
        20 + k * 18,
        (d[k as int] as int % 8 + 3) as nat,
        palette_color(scheme_index(d), ((k + 2) % 4) as int),
    )
}

pub open spec fn helix_body(d: Seq<u8>, k: nat) -> Seq<char>
    decreases k,
{
    if k == 0 {
        art_header(d)
    } else {
        helix_body(d, (k - 1) as nat) + helix_circle1(d, (k - 1) as nat) + helix_circle2(
            d,
            (k - 1) as nat,
        )
    }
}

pub open spec fn helix_svg(d: Seq<u8>) -> Seq<char> {
    helix_body(d, helix_count(d)) + "</svg>"@
}

fn helix_render(bytes: &Vec<u8>) -> (r: String)
    requires
        bytes@.len() >= 4,
    ensures
        r@ == helix_svg(bytes@),
        r@.len() <= 60000,
{
    let mut s = art_header_str(bytes);
    let count: usize = if bytes.len() < 32 {
        bytes.len()
    } else {
        32
    };
    let mut k: usize = 0;
    while k < count
        invariant
            k <= count,
            count == helix_count(bytes@),
            count <= 32,
            bytes@.len() >= 4,
            s@ == helix_body(bytes@, k as nat),
            s@.len() <= 130 + k * 400,
        decreases count - k,
    {
        let b = bytes[k];
        let rad = (b % 8 + 3) as u64;
        let cy = (20 + k * 18) as u64;
        let x1 = osc_pos_val(k);
        let fill1 = palette_color_str(bytes[1] % 5, (k % 4) as u8);
        let c1 = circle_elem(x1, cy, rad, fill1);
        s.append(c1.as_str());
        let fill2 = palette_color_str(bytes[1] % 5, ((k + 2) % 4) as u8);
        let c2 = circle_elem(320 - x1, cy, rad, fill2);
        s.append(c2.as_str());
        proof {
            assert(c1@ == helix_circle1(bytes@, k as nat));
            assert(c2@ == helix_circle2(bytes@, k as nat));
            assert(s@ == helix_body(bytes@, (k + 1) as nat));
        }
        k = k + 1;
    }
    s.append("</svg>");
    proof {
        reveal_strlit("</svg>");
    }
    s
}

/// How many nested frames the fractal style draws.
pub open spec fn fract_count(d: Seq<u8>) -> nat {
    if d.len() < 16 {
        d.len()
    } else {
        16
    }
}

/// Frame `k` of the fractal style: a shrinking square, colored by
/// the digest byte at `k`.
pub open spec fn fract_frame(d: Seq<u8>, k: nat) -> Seq<char> {
    frame_spec(
        k * 10,
        (320 - k * 20) as nat,
        palette_color(scheme_index(d), d[k as int] as int % 4),
    )
}

pub open spec fn fract_body(d: Seq<u8>, k: nat) -> Seq<char>
    decreases k,
{
    if k == 0 {
        art_header(d)
    } else {
        fract_body(d, (k - 1) as nat) + fract_frame(d, (k - 1) as nat)
    }
}

pub open spec fn fractal_svg(d: Seq<u8>) -> Seq<char> {
    fract_body(d, fract_count(d)) + "</svg>"@
}

fn fractal_render(bytes: &Vec<u8>) -> (r: String)
    requires
        bytes@.len() >= 4,
    ensures
        r@ == fractal_svg(bytes@),
        r@.len() <= 60000,
{
    let mut s = art_header_str(bytes);
    let count: usize = if bytes.len() < 16 {
        bytes.len()
    } else {
        16
    };
    let mut k: usize = 0;
    while k < count
        invariant
            k <= count,
            count == fract_count(bytes@),
            count <= 16,
            bytes@.len() >= 4,
            s@ == fract_body(bytes@, k as nat),
            s@.len() <= 130 + k * 200,
        decreases count - k,
    {
        let b = bytes[k];
        let color = palette_color_str(bytes[1] % 5, b % 4);
        let frame = frame_elem((k * 10) as u64, (320 - k * 20) as u64, color);
        s.append(frame.as_str());
        proof {
            assert(frame@ == fract_frame(bytes@, k as nat));
            assert(s@ == fract_body(bytes@, (k + 1) as nat));
        }
        k = k + 1;
    }
    s.append("</svg>");
    proof {
        reveal_strlit("</svg>");
    }
    s
}

/// The image the digest bytes synthesize, in the style, scheme and
/// layout the leading bytes select.
pub open spec fn svg_of(d: Seq<u8>) -> Seq<char> {
    if style_index(d) == 0 {
        heatmap_svg(d)
    } else if style_index(d) == 1 {
        geometric_svg(d)
    } else if style_index(d) == 2 {
        helix_svg(d)
    } else {
        fractal_svg(d)
    }
}

/// Renders the vector image for the digest bytes.
pub fn render_svg(bytes: &Vec<u8>) -> (r: String)
    requires
        bytes@.len() >= 4,
    ensures
        r@ == svg_of(bytes@),
        r@.len() <= 60000,
{
    match select_style(bytes) {
        ArtStyle::Heatmap => heatmap_render(bytes),
        ArtStyle::Geometric => geometric_render(bytes),
        ArtStyle::Helix => helix_render(bytes),
        ArtStyle::Fractal => fractal_render(bytes),
    }
}

/// Synthesis is deterministic: equal digests always yield the
/// byte-identical image.
pub proof fn lemma_art_deterministic(a: Seq<u8>, b: Seq<u8>)
    requires
        a == b,
    ensures
        svg_of(a) == svg_of(b),
{
}

} // verus!
