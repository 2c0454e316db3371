//! The path builder: an ordered sequence of drawing-rule fragments plus
//! per-path styling, serialized to a `<path>` element or to bare rule text.

use vstd::prelude::*;

use crate::color::Color;
use crate::color::color_attr_string;
use crate::color::color_keyword;
use crate::num::dec_rep;
use crate::num::dec_string;

verus! {

/// One `<path>` element under construction: drawing rules in insertion
/// order, stroke color, stroke width and fill color.
pub struct Path {
    pub rules: Vec<String>,
    pub stroke: Color,
    pub stroke_width: usize,
    pub fill: Color,
}

/// The rule fragments of a path as character sequences, in insertion order.
pub open spec fn rules_view(p: Path) -> Seq<Seq<char>> {
    p.rules@.map_values(|s: String| s@)
}

/// The concatenation of the fragments with indices in `[a, b)`, in order.
pub open spec fn frags_range(frags: Seq<Seq<char>>, a: int, b: int) -> Seq<char>
    decreases b - a,
{
    if a >= b {
        Seq::empty()
    } else {
        frags_range(frags, a, b - 1) + frags[b - 1]
    }
}

/// Every rule fragment of the path joined in insertion order, with no
/// separator beyond what each fragment itself carries.
pub open spec fn rules_text(p: Path) -> Seq<char> {
    frags_range(rules_view(p), 0, rules_view(p).len() as int)
}

/// The fragment appended by `move_to`.
pub open spec fn move_fragment(x: usize, y: usize) -> Seq<char> {
    "M "@ + dec_rep(x as nat) + " "@ + dec_rep(y as nat) + " "@
}

/// The fragment appended by `line_to`.
pub open spec fn line_fragment(x: usize, y: usize) -> Seq<char> {
    "L "@ + dec_rep(x as nat) + " "@ + dec_rep(y as nat) + " "@
}

/// The fragment appended by `bezier`: two control points, then the endpoint.
pub open spec fn bezier_fragment(points: [usize; 6]) -> Seq<char> {
    "C "@ + dec_rep(points[0] as nat) + " "@ + dec_rep(points[1] as nat) + ", "@
        + dec_rep(points[2] as nat) + " "@ + dec_rep(points[3] as nat) + ", "@
        + dec_rep(points[4] as nat) + " "@ + dec_rep(points[5] as nat) + " "@
}

/// The fragment appended by `close_path`.
pub open spec fn close_fragment() -> Seq<char> {
    "Z "@
}

/// The full `<path ... />` element text for a path's current state.
pub open spec fn path_markup(p: Path) -> Seq<char> {
    "<path d=\""@ + rules_text(p) + "\" stroke=\""@ + color_keyword(p.stroke)
        + "\" stroke-width=\""@ + dec_rep(p.stroke_width as nat) + "\" fill=\""@
        + color_keyword(p.fill) + "\" />"@
}

/// The stroke, stroke width and fill of two path values agree.
pub open spec fn same_styling(a: Path, b: Path) -> bool {
    a.stroke == b.stroke && a.stroke_width == b.stroke_width && a.fill == b.fill
}

impl Path {
    /// A fresh path: no rules, stroke and fill `NoColor`, stroke width zero.
    pub fn new() -> (p: Path)
        ensures
            rules_view(p) == Seq::<Seq<char>>::empty(),
            p.stroke == Color::NoColor,
            p.stroke_width == 0,
            p.fill == Color::NoColor,
    {
        let p = Path {
            rules: Vec::new(),
            stroke: Color::NoColor,
            stroke_width: 0,
            fill: Color::NoColor,
        };
        proof {
            assert(rules_view(p) =~= Seq::<Seq<char>>::empty());
        }
        p
    }

    /// Overwrites the stroke color; everything else is untouched.
    pub fn set_stroke_color(&mut self, color: Color)
        ensures
            final(self).stroke == color,
            final(self).stroke_width == old(self).stroke_width,
            final(self).fill == old(self).fill,
            rules_view(*final(self)) == rules_view(*old(self)),
    {
        self.stroke = color;
    }

    /// Overwrites the stroke width; everything else is untouched.
    pub fn set_stroke_width(&mut self, width: usize)
        ensures
            final(self).stroke_width == width,
            final(self).stroke == old(self).stroke,
            final(self).fill == old(self).fill,
            rules_view(*final(self)) == rules_view(*old(self)),
    {
        self.stroke_width = width;
    }

    /// Overwrites the fill color; everything else is untouched.
    pub fn set_fill_color(&mut self, color: Color)
        ensures
            final(self).fill == color,
            final(self).stroke == old(self).stroke,
            final(self).stroke_width == old(self).stroke_width,
            rules_view(*final(self)) == rules_view(*old(self)),
    {
        self.fill = color;
    }

    /// Appends one rule fragment at the end of the sequence.
    fn push_rule(&mut self, rule: String)
        ensures
            rules_view(*final(self)) == rules_view(*old(self)).push(rule@),
            same_styling(*final(self), *old(self)),
    {
        self.rules.push(rule);
        proof {
            assert(rules_view(*self) =~= rules_view(*old(self)).push(rule@));
        }
    }

    /// Appends the rule `M x y `.
    pub fn move_to(&mut self, pos: [usize; 2])
        ensures
            rules_view(*final(self)) == rules_view(*old(self)).push(
                move_fragment(pos[0], pos[1]),
            ),
            same_styling(*final(self), *old(self)),
    {
        let mut rule = String::from_str("M ");
        let xs = dec_string(pos[0]);
        rule.append(xs.as_str());
        rule.append(" ");
        let ys = dec_string(pos[1]);
        rule.append(ys.as_str());
        rule.append(" ");
        self.push_rule(rule);
    }

    /// Appends the rule `L x y `.
    pub fn line_to(&mut self, pos: [usize; 2])
        ensures
            rules_view(*final(self)) == rules_view(*old(self)).push(
                line_fragment(pos[0], pos[1]),
            ),
            same_styling(*final(self), *old(self)),
    {
        let mut rule = String::from_str("L ");
        let xs = dec_string(pos[0]);
        rule.append(xs.as_str());
        rule.append(" ");
        let ys = dec_string(pos[1]);
        rule.append(ys.as_str());
        rule.append(" ");
        self.push_rule(rule);
    }

    /// Appends the rule `C x1 y1, x2 y2, x y `.
    pub fn bezier(&mut self, points: [usize; 6])
        ensures
            rules_view(*final(self)) == rules_view(*old(self)).push(bezier_fragment(points)),
            same_styling(*final(self), *old(self)),
    {
        let mut rule = String::from_str("C ");
        let s0 = dec_string(points[0]);
        rule.append(s0.as_str());
        rule.append(" ");
        let s1 = dec_string(points[1]);
        rule.append(s1.as_str());
        rule.append(", ");
        let s2 = dec_string(points[2]);
        rule.append(s2.as_str());
        rule.append(" ");
        let s3 = dec_string(points[3]);
        rule.append(s3.as_str());
        rule.append(", ");
        let s4 = dec_string(points[4]);
        rule.append(s4.as_str());
        rule.append(" ");
        let s5 = dec_string(points[5]);
        rule.append(s5.as_str());
        rule.append(" ");
        self.push_rule(rule);
    }

    /// Appends the closing rule `Z `.
    pub fn close_path(&mut self)
        ensures
            rules_view(*final(self)) == rules_view(*old(self)).push(close_fragment()),
            same_styling(*final(self), *old(self)),
    {
        self.push_rule(String::from_str("Z "));
    }

    /// Removes the most recently appended rule; on an empty sequence this
    /// is a no-op, not an error.
    pub fn undo(&mut self)
        ensures
            rules_view(*old(self)).len() == 0 ==> rules_view(*final(self)) == rules_view(
                *old(self),
            ),
            rules_view(*old(self)).len() > 0 ==> rules_view(*final(self)) == rules_view(
                *old(self),
            ).drop_last(),
            same_styling(*final(self), *old(self)),
    {
        self.rules.pop();
        proof {
            if rules_view(*old(self)).len() == 0 {
                assert(rules_view(*self) =~= rules_view(*old(self)));
            } else {
                assert(rules_view(*self) =~= rules_view(*old(self)).drop_last());
            }
        }
    }

    /// Appends an arbitrary caller-supplied fragment verbatim.
    pub fn add_rule_raw(&mut self, rule: String)
        ensures
            rules_view(*final(self)) == rules_view(*old(self)).push(rule@),
            same_styling(*final(self), *old(self)),
    {
        self.push_rule(rule);
    }

    /// The bare rule text: every fragment joined in insertion order.
    pub fn create_raw(&self) -> (r: String)
        ensures
            r@ == rules_text(*self),
    {
        let mut text = String::new();
        let n = self.rules.len();
        let mut i: usize = 0;
        while i < n
            invariant
                i <= n,
                n == self.rules.len(),
                text@ == frags_range(rules_view(*self), 0, i as int),
            decreases n - i,
        {
            let rstr = &self.rules[i];
            text.append(rstr.as_str());
            i = i + 1;
            proof {
                assert(text@ =~= frags_range(rules_view(*self), 0, i as int));
            }
        }
        text
    }

    /// The full `<path d="..." stroke="..." stroke-width="..." fill="..." />`
    /// element, exactly as `path_markup` describes.  The result is a
    /// function of the path's state alone, and the path is only read, so
    /// repeated calls with no intervening mutation return identical text.
    pub fn create(&self) -> (r: String)
        ensures
            r@ == path_markup(*self),
    {
        let mut out = String::from_str("<path d=\"");
        let d = self.create_raw();
        out.append(d.as_str());
        out.append("\" stroke=\"");
        let sc = color_attr_string(&self.stroke);
        out.append(sc.as_str());
        out.append("\" stroke-width=\"");
        let ws = dec_string(self.stroke_width);
        out.append(ws.as_str());
        out.append("\" fill=\"");
        let fc = color_attr_string(&self.fill);
        out.append(fc.as_str());
        out.append("\" />");
        out
    }
}

/// Law: `undo` on a path with no rules leaves serialization unchanged.
/// When the rule sequence was already empty, `undo`'s contract guarantees
/// that rules and styling are exactly as before, and then the serialized
/// element text is identical as well.
pub proof fn lemma_undo_on_empty_keeps_markup(before: Path, after: Path)
    requires
        rules_view(before).len() == 0,
        rules_view(after) == rules_view(before),
        same_styling(after, before),
    ensures
        path_markup(after) == path_markup(before),
{
}

/// Law: the raw serialization is exactly the `d` attribute's value inside
/// the full serialization.  The full form opens with the literal
/// `<path d="`, and the characters that follow, up to the length of the raw
/// rule text, are that raw text itself, character for character.
pub proof fn lemma_raw_is_d_value(p: Path)
    ensures
        ({
            let head = "<path d=\""@;
            let d = rules_text(p);
            path_markup(p).subrange(0, head.len() as int) == head && path_markup(p).subrange(
                head.len() as int,
                head.len() as int + d.len() as int,
            ) == d
        }),
{
    let head = "<path d=\""@;
    let d = rules_text(p);
    assert(path_markup(p).subrange(0, head.len() as int) =~= head);
    assert(path_markup(p).subrange(head.len() as int, head.len() as int + d.len() as int) =~= d);
}

} // verus!
