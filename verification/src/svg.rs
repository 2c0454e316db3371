//! The document builder: a view box, an optional namespace override, an
//! optional background color and an ordered sequence of paths, serialized
//! to a complete `<svg>` document.

use vstd::prelude::*;

use crate::color::Color;
use crate::color::color_attr_string;
use crate::color::color_keyword;
use crate::num::dec_rep;
use crate::num::dec_string;
use crate::path::Path;
use crate::path::path_markup;

verus! {

/// One SVG document under construction: the required view box, the
/// namespace override (the fixed default is used when unset), the attached
/// paths in paint order, and the optional background color.
pub struct MinSVG {
    pub viewbox: [usize; 4],
    pub xmlns: Option<String>,
    pub paths: Vec<Path>,
    pub background: Color,
}

/// The namespace literal used when no override is set.
pub open spec fn default_namespace() -> Seq<char> {
    "http://www.w3.org/2000/svg"@
}

/// The namespace the document serializes with: the override if set, else
/// the fixed default.
pub open spec fn namespace_text(d: MinSVG) -> Seq<char> {
    match d.xmlns {
        Option::None => default_namespace(),
        Option::Some(x) => x@,
    }
}

/// The opening `<svg viewBox="..." xmlns="...">` tag.
pub open spec fn svg_header(d: MinSVG) -> Seq<char> {
    "<svg viewBox=\""@ + dec_rep(d.viewbox[0] as nat) + " "@ + dec_rep(d.viewbox[1] as nat)
        + " "@ + dec_rep(d.viewbox[2] as nat) + " "@ + dec_rep(d.viewbox[3] as nat)
        + "\" xmlns=\""@ + namespace_text(d) + "\">"@
}

/// The background rectangle: empty when the background color is `NoColor`,
/// else a `<rect>` sized by the view box's width and height and filled with
/// the background color's attribute rendering.
pub open spec fn background_markup(d: MinSVG) -> Seq<char> {
    match d.background {
        Color::NoColor => Seq::empty(),
        c => "<rect width=\""@ + dec_rep(d.viewbox[2] as nat) + "\" height=\""@ + dec_rep(
            d.viewbox[3] as nat,
        ) + "\" style=\"fill:"@ + color_keyword(c) + "\" />"@,
    }
}

/// The concatenation of the serialized path blocks with indices in
/// `[a, b)`, in paint order.
pub open spec fn paths_range_markup(ps: Seq<Path>, a: int, b: int) -> Seq<char>
    decreases b - a,
{
    if a >= b {
        Seq::empty()
    } else {
        paths_range_markup(ps, a, b - 1) + path_markup(ps[b - 1])
    }
}

/// Every attached path's serialized block, in paint order.
pub open spec fn paths_markup(ps: Seq<Path>) -> Seq<char> {
    paths_range_markup(ps, 0, ps.len() as int)
}

/// The document body shared by both serialization forms: the background
/// rectangle (possibly empty), the path blocks in paint order, and the
/// closing `</svg>` tag.
pub open spec fn svg_raw_markup(d: MinSVG) -> Seq<char> {
    background_markup(d) + paths_markup(d.paths@) + "</svg>"@
}

/// The complete document text: the opening tag followed by the body.
pub open spec fn svg_markup(d: MinSVG) -> Seq<char> {
    svg_header(d) + svg_raw_markup(d)
}

impl MinSVG {
    /// A fresh document: the given view box, no namespace override, no
    /// background, no paths.
    pub fn new(viewbox: [usize; 4]) -> (d: MinSVG)
        ensures
            d.viewbox@ == viewbox@,
            d.xmlns is None,
            d.background == Color::NoColor,
            d.paths@ == Seq::<Path>::empty(),
    {
        let d = MinSVG { viewbox, xmlns: Option::None, paths: Vec::new(), background: Color::NoColor };
        proof {
            assert(d.paths@ =~= Seq::<Path>::empty());
        }
        d
    }

    /// Overrides the default namespace; everything else is untouched.
    pub fn set_xmlns(&mut self, xmlns: String)
        ensures
            final(self).xmlns == Option::Some(xmlns),
            final(self).viewbox@ == old(self).viewbox@,
            final(self).background == old(self).background,
            final(self).paths@ == old(self).paths@,
    {
        self.xmlns = Option::Some(xmlns);
    }

    /// Sets the background color; `NoColor` suppresses the background
    /// rectangle entirely.  Everything else is untouched.
    pub fn set_background_color(&mut self, color: Color)
        ensures
            final(self).background == color,
            final(self).viewbox@ == old(self).viewbox@,
            final(self).xmlns == old(self).xmlns,
            final(self).paths@ == old(self).paths@,
    {
        self.background = color;
    }

    /// Attaches a path at the end of the paint order, taking ownership.
    pub fn add_path(&mut self, path: Path)
        ensures
            final(self).paths@ == old(self).paths@.push(path),
            final(self).viewbox@ == old(self).viewbox@,
            final(self).xmlns == old(self).xmlns,
            final(self).background == old(self).background,
    {
        self.paths.push(path);
    }

    /// The document body without the opening tag: the background rectangle
    /// if a background color is set, each path's serialized block in paint
    /// order, and the closing `</svg>` tag.
    pub fn create_raw(&self) -> (r: String)
        ensures
            r@ == svg_raw_markup(*self),
    {
        let mut out = String::new();
        match &self.background {
            Color::NoColor => {},
            _ => {
                out.append("<rect width=\"");
                let ws = dec_string(self.viewbox[2]);
                out.append(ws.as_str());
                out.append("\" height=\"");
                let hs = dec_string(self.viewbox[3]);
                out.append(hs.as_str());
                out.append("\" style=\"fill:");
                let cs = color_attr_string(&self.background);
                out.append(cs.as_str());
                out.append("\" />");
            },
        }
        let n = self.paths.len();
        let mut i: usize = 0;
        while i < n
            invariant
                i <= n,
                n == self.paths.len(),
                out@ == background_markup(*self) + paths_range_markup(self.paths@, 0, i as int),
            decreases n - i,
        {
            let block = self.paths[i].create();
            out.append(block.as_str());
            i = i + 1;
            proof {
                assert(out@ =~= background_markup(*self) + paths_range_markup(
                    self.paths@,
                    0,
                    i as int,
                ));
            }
        }
        out.append("</svg>");
        proof {
            assert(out@ =~= svg_raw_markup(*self));
        }
        out
    }

    /// The complete document: the opening `<svg viewBox="..." xmlns="...">`
    /// tag followed by the body, exactly as `svg_markup` describes.  The
    /// result is a function of the document's state alone, and the document
    /// is only read, so repeated calls with no intervening mutation return
    /// identical text.
    pub fn create(&self) -> (r: String)
        ensures
            r@ == svg_markup(*self),
    {
        let mut out = String::from_str("<svg viewBox=\"");
        let a = dec_string(self.viewbox[0]);
        out.append(a.as_str());
        out.append(" ");
        let b = dec_string(self.viewbox[1]);
        out.append(b.as_str());
        out.append(" ");
        let c = dec_string(self.viewbox[2]);
        out.append(c.as_str());
        out.append(" ");
        let e = dec_string(self.viewbox[3]);
        out.append(e.as_str());
        out.append("\" xmlns=\"");
        match &self.xmlns {
            Option::None => out.append("http://www.w3.org/2000/svg"),
            Option::Some(x) => out.append(x.as_str()),
        }
        out.append("\">");
        let body = self.create_raw();
        out.append(body.as_str());
        out
    }
}

/// Splitting a range of path blocks at a midpoint splits its text.
proof fn lemma_paths_range_split(ps: Seq<Path>, a: int, m: int, b: int)
    requires
        a <= m <= b,
    ensures
        paths_range_markup(ps, a, b) == paths_range_markup(ps, a, m) + paths_range_markup(
            ps,
            m,
            b,
        ),
    decreases b - m,
{
    if m == b {
        assert(paths_range_markup(ps, a, b) =~= paths_range_markup(ps, a, m)
            + paths_range_markup(ps, m, b));
    } else {
        lemma_paths_range_split(ps, a, m, b - 1);
        assert(paths_range_markup(ps, a, b) =~= paths_range_markup(ps, a, m)
            + paths_range_markup(ps, m, b));
    }
}

/// Law: background suppression.  A document whose background is `NoColor`
/// emits no rectangle block at all: its complete text is exactly the
/// header, the path blocks in paint order, and the closing tag.
pub proof fn lemma_no_background_no_rect(d: MinSVG)
    requires
        d.background == Color::NoColor,
    ensures
        background_markup(d) == Seq::<char>::empty(),
        svg_markup(d) == svg_header(d) + paths_markup(d.paths@) + "</svg>"@,
{
    assert(svg_markup(d) =~= svg_header(d) + paths_markup(d.paths@) + "</svg>"@);
}

/// Concatenation of character sequences is associative.
proof fn lemma_cat_assoc(a: Seq<char>, b: Seq<char>, c: Seq<char>)
    ensures
        (a + b) + c == a + (b + c),
{
    assert((a + b) + c =~= a + (b + c));
}

/// Law: paint order follows insertion order.  For any two attached paths,
/// the earlier one's serialized block stands strictly before the later
/// one's: the complete document text decomposes into the header, the
/// background, the blocks before the earlier path, its block, the blocks
/// between the two, the later path's block, the remaining blocks, and the
/// closing tag, in that order.
pub proof fn lemma_paint_order(d: MinSVG, i: int, j: int)
    requires
        0 <= i < j < d.paths@.len(),
    ensures
        ({
            let ps = d.paths@;
            svg_markup(d) == svg_header(d) + background_markup(d) + paths_range_markup(ps, 0, i)
                + path_markup(ps[i]) + paths_range_markup(ps, i + 1, j) + path_markup(ps[j])
                + paths_range_markup(ps, j + 1, ps.len() as int) + "</svg>"@
        }),
{
    let ps = d.paths@;
    let len = ps.len() as int;
    let h = svg_header(d);
    let bg = background_markup(d);
    let r1 = paths_range_markup(ps, 0, i);
    let mi = path_markup(ps[i]);
    let r2 = paths_range_markup(ps, i + 1, j);
    let mj = path_markup(ps[j]);
    let r3 = paths_range_markup(ps, j + 1, len);
    let close = "</svg>"@;
    // Decompose the joined path blocks around positions i and j.
    lemma_paths_range_split(ps, 0, i, len);
    lemma_paths_range_split(ps, i, i + 1, len);
    lemma_paths_range_split(ps, i + 1, j, len);
    lemma_paths_range_split(ps, j, j + 1, len);
    assert(paths_range_markup(ps, i, i + 1) == paths_range_markup(ps, i, i) + mi);
    assert(paths_range_markup(ps, j, j + 1) == paths_range_markup(ps, j, j) + mj);
    assert(paths_range_markup(ps, i, i + 1) =~= mi);
    assert(paths_range_markup(ps, j, j + 1) =~= mj);
    assert(paths_range_markup(ps, j, len) == mj + r3);
    assert(paths_range_markup(ps, i + 1, len) == r2 + (mj + r3));
    assert(paths_range_markup(ps, i, len) == mi + (r2 + (mj + r3)));
    assert(paths_markup(ps) == r1 + (mi + (r2 + (mj + r3))));
    let pm = paths_markup(ps);
    // Bring the whole document to a fully right-nested shape.
    lemma_cat_assoc(bg, pm, close);
    lemma_cat_assoc(r1, mi + (r2 + (mj + r3)), close);
    lemma_cat_assoc(mi, r2 + (mj + r3), close);
    lemma_cat_assoc(r2, mj + r3, close);
    lemma_cat_assoc(mj, r3, close);
    assert(svg_markup(d) == h + (bg + (r1 + (mi + (r2 + (mj + (r3 + close)))))));
    // Bring the decomposition of the ensures to the same shape.
    lemma_cat_assoc(h + bg + r1 + mi + r2 + mj, r3, close);
    lemma_cat_assoc(h + bg + r1 + mi + r2, mj, r3 + close);
    lemma_cat_assoc(h + bg + r1 + mi, r2, mj + (r3 + close));
    lemma_cat_assoc(h + bg + r1, mi, r2 + (mj + (r3 + close)));
    lemma_cat_assoc(h + bg, r1, mi + (r2 + (mj + (r3 + close))));
    lemma_cat_assoc(h, bg, r1 + (mi + (r2 + (mj + (r3 + close)))));
    assert(h + bg + r1 + mi + r2 + mj + r3 + close == h + (bg + (r1 + (mi + (r2 + (mj + (r3
        + close)))))));
}

} // verus!
