use vstd::prelude::*;
use vstd::string::*;
use crate::color::{color_hex_spec, Rgb8};
use crate::text::{chars_of, push_char};

verus! {

/// Whether `pattern` is a non-empty prefix of `text`.
pub open spec fn starts_with(text: Seq<char>, pattern: Seq<char>) -> bool {
    0 < pattern.len() <= text.len() && text.take(pattern.len() as int) == pattern
}

/// `text` with every match of `pattern` replaced by `with`, as
/// `str::replace` does: matches taken from left to right without overlap;
/// an empty pattern matches at every character boundary, the start and the
/// end included.
pub open spec fn replaced(text: Seq<char>, pattern: Seq<char>, with: Seq<char>) -> Seq<char>
    decreases text.len(),
{
    if pattern.len() == 0 {
        if text.len() == 0 {
            with
        } else {
            with + seq![text[0]] + replaced(text.drop_first(), pattern, with)
        }
    } else if text.len() == 0 {
        text
    } else if starts_with(text, pattern) {
        with + replaced(text.skip(pattern.len() as int), pattern, with)
    } else {
        seq![text[0]] + replaced(text.drop_first(), pattern, with)
    }
}

/// Recoloured text is kept as pieces: `(true, s)` is text from the source,
/// `(false, s)` a colour that was put in. Later fills only look at pieces
/// from the source, so an inserted colour is never read again.
///
/// This gives the pieces of `cur + text` once `pattern` in `text` is
/// replaced by `with` as `str::replace` does: source text between the
/// matches, the replacement at each match. `cur` is source text already
/// passed over.
pub open spec fn replace_run(
    cur: Seq<char>,
    text: Seq<char>,
    pattern: Seq<char>,
    with: Seq<char>,
) -> Seq<(bool, Seq<char>)>
    decreases text.len(),
{
    if pattern.len() == 0 {
        if text.len() == 0 {
            seq![(true, cur), (false, with), (true, Seq::empty())]
        } else {
            seq![(true, cur), (false, with)] + replace_run(
                seq![text[0]],
                text.drop_first(),
                pattern,
                with,
            )
        }
    } else if text.len() == 0 {
        seq![(true, cur)]
    } else if starts_with(text, pattern) {
        seq![(true, cur), (false, with)] + replace_run(
            Seq::empty(),
            text.skip(pattern.len() as int),
            pattern,
            with,
        )
    } else {
        replace_run(cur.push(text[0]), text.drop_first(), pattern, with)
    }
}

/// One fill applied to the pieces: each piece from the source has the
/// placeholder replaced in it; inserted colours stay as they are.
pub open spec fn paint(pieces: Seq<(bool, Seq<char>)>, pattern: Seq<char>, with: Seq<char>) -> Seq<(bool, Seq<char>)>
    decreases pieces.len(),
{
    if pieces.len() == 0 {
        Seq::empty()
    } else {
        paint(pieces.drop_last(), pattern, with) + (if pieces.last().0 {
            replace_run(Seq::empty(), pieces.last().1, pattern, with)
        } else {
            seq![pieces.last()]
        })
    }
}

/// The pieces of the SVG text after each fill in turn.
pub open spec fn painted(svg: Seq<char>, fills: Seq<(&str, Rgb8)>) -> Seq<(bool, Seq<char>)>
    decreases fills.len(),
{
    if fills.len() == 0 {
        seq![(true, svg)]
    } else {
        paint(painted(svg, fills.drop_last()), fills.last().0@, color_hex_spec(fills.last().1))
    }
}

/// The text of the pieces, one after the other.
pub open spec fn joined(pieces: Seq<(bool, Seq<char>)>) -> Seq<char>
    decreases pieces.len(),
{
    if pieces.len() == 0 {
        Seq::empty()
    } else {
        joined(pieces.drop_last()) + pieces.last().1
    }
}

/// The SVG text recoloured fill by fill, in the order of the fills: each
/// fill replaces its placeholder, as `str::replace` does, in the text that
/// came from the source, and leaves the colours of earlier fills alone.
pub open spec fn recolored(svg: Seq<char>, fills: Seq<(&str, Rgb8)>) -> Seq<char> {
    joined(painted(svg, fills))
}

/// The view of pieces held as vectors.
pub open spec fn pieces_view(v: Seq<(bool, Vec<char>)>) -> Seq<(bool, Seq<char>)> {
    v.map_values(|x: (bool, Vec<char>)| (x.0, x.1@))
}

proof fn lemma_pieces_view_add(a: Seq<(bool, Vec<char>)>, b: Seq<(bool, Vec<char>)>)
    ensures
        pieces_view(a + b) == pieces_view(a) + pieces_view(b),
{
    assert(pieces_view(a + b) =~= pieces_view(a) + pieces_view(b));
}

fn copy_chars(v: &Vec<char>) -> (r: Vec<char>)
    ensures
        r@ == v@,
{
    let mut r: Vec<char> = Vec::new();
    let mut i: usize = 0;
    while i < v.len()
        invariant
            i <= v.len(),
            r@ == v@.take(i as int),
        decreases v.len() - i,
    {
        r.push(v[i]);
        i += 1;
        assert(r@ =~= v@.take(i as int));
    }
    assert(v@.take(i as int) =~= v@);
    r
}

fn matches_at(text: &Vec<char>, pattern: &Vec<char>, at: usize) -> (r: bool)
    requires
        at <= text.len(),
    ensures
        r == starts_with(text@.skip(at as int), pattern@),
{
    if pattern.len() == 0 || pattern.len() > text.len() - at {
        return false;
    }
    let ghost rest = text@.skip(at as int);
    let mut j: usize = 0;
    while j < pattern.len()
        invariant
            j <= pattern.len(),
            0 < pattern.len() <= text.len() - at,
            rest == text@.skip(at as int),
            forall|q: int| 0 <= q < j ==> text@[at + q] == pattern@[q],
        decreases pattern.len() - j,
    {
        if text[at + j] != pattern[j] {
            assert(rest.take(pattern.len() as int)[j as int] != pattern@[j as int]);
            return false;
        }
        j += 1;
    }
    assert(rest.take(pattern.len() as int) =~= pattern@);
    true
}

fn replace_in_run(text: &Vec<char>, pattern: &Vec<char>, with: &Vec<char>) -> (out: Vec<(bool, Vec<char>)>)
    ensures
        pieces_view(out@) == replace_run(Seq::empty(), text@, pattern@, with@),
{
    let n: usize = text.len();
    let mut out: Vec<(bool, Vec<char>)> = Vec::new();
    let mut cur: Vec<char> = Vec::new();
    let mut i: usize = 0;
    assert(text@.skip(0) =~= text@);
    assert(pieces_view(out@) + replace_run(cur@, text@.skip(0), pattern@, with@) =~= replace_run(
        Seq::empty(),
        text@,
        pattern@,
        with@,
    ));
    while i < n
        invariant
            i <= n,
            n == text@.len(),
            pieces_view(out@) + replace_run(cur@, text@.skip(i as int), pattern@, with@)
                == replace_run(Seq::empty(), text@, pattern@, with@),
        decreases n - i,
    {
        let ghost rest = text@.skip(i as int);
        let ghost before = out@;
        let ghost c0 = cur@;
        if pattern.len() == 0 {
            let w = copy_chars(with);
            out.push((true, cur));
            out.push((false, w));
            cur = Vec::new();
            cur.push(text[i]);
            i += 1;
            proof {
                assert(rest.drop_first() =~= text@.skip(i as int));
                assert(cur@ =~= seq![rest[0]]);
                assert(pieces_view(out@) =~= pieces_view(before) + seq![(true, c0), (false, with@)]);
                assert(pieces_view(out@) + replace_run(cur@, text@.skip(i as int), pattern@, with@)
                    =~= pieces_view(before) + replace_run(c0, rest, pattern@, with@));
            }
        } else if matches_at(text, pattern, i) {
            let len: usize = pattern.len();
            let w = copy_chars(with);
            out.push((true, cur));
            out.push((false, w));
            cur = Vec::new();
            i += len;
            proof {
                assert(rest.skip(len as int) =~= text@.skip(i as int));
                assert(pieces_view(out@) =~= pieces_view(before) + seq![(true, c0), (false, with@)]);
                assert(pieces_view(out@) + replace_run(cur@, text@.skip(i as int), pattern@, with@)
                    =~= pieces_view(before) + replace_run(c0, rest, pattern@, with@));
            }
        } else {
            cur.push(text[i]);
            i += 1;
            proof {
                assert(rest.drop_first() =~= text@.skip(i as int));
                assert(cur@ =~= c0.push(rest[0]));
            }
        }
    }
    let ghost before = out@;
    let ghost c0 = cur@;
    assert(text@.skip(i as int) =~= Seq::<char>::empty());
    if pattern.len() == 0 {
        let w = copy_chars(with);
        out.push((true, cur));
        out.push((false, w));
        out.push((true, Vec::new()));
        assert(pieces_view(out@) =~= pieces_view(before) + seq![(true, c0), (false, with@), (true, Seq::<char>::empty())]);
    } else {
        out.push((true, cur));
        assert(pieces_view(out@) =~= pieces_view(before) + seq![(true, c0)]);
    }
    out
}

fn paint_pieces(pieces: &Vec<(bool, Vec<char>)>, pattern: &Vec<char>, with: &Vec<char>) -> (out: Vec<(bool, Vec<char>)>)
    ensures
        pieces_view(out@) == paint(pieces_view(pieces@), pattern@, with@),
{
    let mut out: Vec<(bool, Vec<char>)> = Vec::new();
    let mut i: usize = 0;
    assert(pieces_view(pieces@).take(0) =~= Seq::<(bool, Seq<char>)>::empty());
    assert(pieces_view(out@) =~= Seq::<(bool, Seq<char>)>::empty());
    while i < pieces.len()
        invariant
            i <= pieces.len(),
            pieces_view(out@) == paint(pieces_view(pieces@).take(i as int), pattern@, with@),
        decreases pieces.len() - i,
    {
        let ghost before = out@;
        let ghost pv = pieces_view(pieces@);
        assert(pv.take(i + 1).drop_last() =~= pv.take(i as int));
        assert(pv.take(i + 1).last() == (pieces@[i as int].0, pieces@[i as int].1@));
        if pieces[i].0 {
            let mut r = replace_in_run(&pieces[i].1, pattern, with);
            let ghost rv = r@;
            out.append(&mut r);
            proof {
                lemma_pieces_view_add(before, rv);
            }
        } else {
            let t = copy_chars(&pieces[i].1);
            out.push((false, t));
            assert(pieces_view(out@) =~= pieces_view(before) + seq![(false, pieces@[i as int].1@)]);
        }
        i += 1;
    }
    assert(pieces_view(pieces@).take(i as int) =~= pieces_view(pieces@));
    out
}

fn join_pieces(pieces: &Vec<(bool, Vec<char>)>) -> (s: String)
    ensures
        s@ == joined(pieces_view(pieces@)),
{
    let mut s = String::new();
    let mut i: usize = 0;
    assert(pieces_view(pieces@).take(0) =~= Seq::<(bool, Seq<char>)>::empty());
    while i < pieces.len()
        invariant
            i <= pieces.len(),
            s@ == joined(pieces_view(pieces@).take(i as int)),
        decreases pieces.len() - i,
    {
        let ghost start = s@;
        let text = &pieces[i].1;
        let mut j: usize = 0;
        while j < text.len()
            invariant
                j <= text.len(),
                text == &pieces@[i as int].1,
                s@ == start + text@.take(j as int),
            decreases text.len() - j,
        {
            push_char(&mut s, text[j]);
            j += 1;
            assert(s@ =~= start + text@.take(j as int));
        }
        let ghost pv = pieces_view(pieces@);
        assert(pv.take(i + 1).drop_last() =~= pv.take(i as int));
        assert(text@.take(j as int) =~= text@);
        i += 1;
    }
    assert(pieces_view(pieces@).take(i as int) =~= pieces_view(pieces@));
    s
}

/// Recolours an SVG source fill by fill, in the order of the fills: each
/// fill's placeholder is replaced by the fill's `#rrggbb` spelling wherever
/// it stands in text from the source, as `str::replace` would replace it;
/// the colours put in by earlier fills are not read again.
pub fn bake_svg_fill(svg: &str, fills: &[(&str, Rgb8)]) -> (out: String)
    ensures
        out@ == recolored(svg@, fills@),
{
    let mut pieces: Vec<(bool, Vec<char>)> = Vec::new();
    pieces.push((true, chars_of(svg)));
    assert(pieces_view(pieces@) =~= seq![(true, svg@)]);
    assert(fills@.take(0) =~= Seq::<(&str, Rgb8)>::empty());
    let mut q: usize = 0;
    while q < fills.len()
        invariant
            q <= fills.len(),
            pieces_view(pieces@) == painted(svg@, fills@.take(q as int)),
        decreases fills.len() - q,
    {
        let (placeholder, color) = fills[q];
        let hex = color.to_hex();
        let p = chars_of(placeholder);
        let w = chars_of(hex.as_str());
        assert(fills@.take(q + 1).drop_last() =~= fills@.take(q as int));
        pieces = paint_pieces(&pieces, &p, &w);
        q += 1;
    }
    assert(fills@.take(q as int) =~= fills@);
    join_pieces(&pieces)
}

/// The text before the fill colour of a one-unit rectangle SVG.
pub open spec fn rect_prefix() -> Seq<char> {
    "<svg><rect width=\"1\" height=\"1\" fill=\""@
}

/// The text after the fill colour of a one-unit rectangle SVG.
pub open spec fn rect_suffix() -> Seq<char> {
    "\"/></svg>"@
}

/// A one-unit square SVG filled with the given colour.
pub fn rect_svg(fill: Rgb8) -> (out: String)
    ensures
        out@ == rect_prefix() + color_hex_spec(fill) + rect_suffix(),
{
    let mut out = "<svg><rect width=\"1\" height=\"1\" fill=\"".to_owned();
    let hex = fill.to_hex();
    out.append(hex.as_str());
    out.append("\"/></svg>");
    out
}

/// The text of pieces put together is the text of each part in turn.
proof fn lemma_joined_add(a: Seq<(bool, Seq<char>)>, b: Seq<(bool, Seq<char>)>)
    ensures
        joined(a + b) == joined(a) + joined(b),
    decreases b.len(),
{
    if b.len() == 0 {
        assert(a + b =~= a);
    } else {
        lemma_joined_add(a, b.drop_last());
        assert((a + b).drop_last() =~= a + b.drop_last());
    }
}

proof fn lemma_joined_one(x: (bool, Seq<char>))
    ensures
        joined(seq![x]) == x.1,
{
    let s = seq![x];
    assert(s.drop_last() =~= Seq::<(bool, Seq<char>)>::empty());
    assert(joined(Seq::<(bool, Seq<char>)>::empty()) == Seq::<char>::empty());
    assert(joined(s) == joined(s.drop_last()) + s.last().1);
    assert(Seq::<char>::empty() + x.1 =~= x.1);
}

proof fn lemma_joined_two(x: (bool, Seq<char>), y: (bool, Seq<char>))
    ensures
        joined(seq![x, y]) == x.1 + y.1,
{
    lemma_joined_one(x);
    lemma_joined_one(y);
    lemma_joined_add(seq![x], seq![y]);
    assert(seq![x] + seq![y] =~= seq![x, y]);
}

/// The pieces of one replacement spell `str::replace`'s result.
proof fn lemma_run_spells_replace(cur: Seq<char>, text: Seq<char>, pattern: Seq<char>, with: Seq<char>)
    ensures
        joined(replace_run(cur, text, pattern, with)) == cur + replaced(text, pattern, with),
    decreases text.len(),
{
    let two = seq![(true, cur), (false, with)];
    lemma_joined_two((true, cur), (false, with));
    if pattern.len() == 0 {
        if text.len() == 0 {
            let three = seq![(true, cur), (false, with), (true, Seq::<char>::empty())];
            lemma_joined_one((true, Seq::<char>::empty()));
            lemma_joined_add(two, seq![(true, Seq::<char>::empty())]);
            assert(two + seq![(true, Seq::<char>::empty())] =~= three);
            assert(cur + with + Seq::<char>::empty() =~= cur + with);
        } else {
            lemma_run_spells_replace(seq![text[0]], text.drop_first(), pattern, with);
            lemma_joined_add(two, replace_run(seq![text[0]], text.drop_first(), pattern, with));
            assert(cur + (with + seq![text[0]] + replaced(text.drop_first(), pattern, with))
                =~= cur + with + (seq![text[0]] + replaced(text.drop_first(), pattern, with)));
        }
    } else if text.len() == 0 {
        lemma_joined_one((true, cur));
        assert(cur + text =~= cur);
    } else if starts_with(text, pattern) {
        let rest = text.skip(pattern.len() as int);
        lemma_run_spells_replace(Seq::empty(), rest, pattern, with);
        lemma_joined_add(two, replace_run(Seq::empty(), rest, pattern, with));
        assert(Seq::<char>::empty() + replaced(rest, pattern, with) =~= replaced(rest, pattern, with));
        assert(cur + with + replaced(rest, pattern, with) =~= cur + (with + replaced(rest, pattern, with)));
    } else {
        lemma_run_spells_replace(cur.push(text[0]), text.drop_first(), pattern, with);
        assert(cur.push(text[0]) + replaced(text.drop_first(), pattern, with)
            =~= cur + (seq![text[0]] + replaced(text.drop_first(), pattern, with)));
    }
}

/// With one fill, recolouring is `str::replace` of the placeholder by the
/// colour's `#rrggbb` spelling.
pub proof fn lemma_single_fill_is_replace(svg: Seq<char>, fill: (&str, Rgb8))
    ensures
        recolored(svg, seq![fill]) == replaced(svg, fill.0@, color_hex_spec(fill.1)),
{
    let fills = seq![fill];
    assert(fills.drop_last() =~= Seq::<(&str, Rgb8)>::empty());
    let start = seq![(true, svg)];
    assert(painted(svg, fills.drop_last()) == start);
    assert(start.drop_last() =~= Seq::<(bool, Seq<char>)>::empty());
    let run = replace_run(Seq::empty(), svg, fill.0@, color_hex_spec(fill.1));
    assert(paint(start.drop_last(), fill.0@, color_hex_spec(fill.1)) == Seq::<(bool, Seq<char>)>::empty());
    assert(paint(start, fill.0@, color_hex_spec(fill.1)) =~= run);
    assert(painted(svg, fills) == run);
    lemma_run_spells_replace(Seq::empty(), svg, fill.0@, color_hex_spec(fill.1));
    assert(Seq::<char>::empty() + replaced(svg, fill.0@, color_hex_spec(fill.1))
        =~= replaced(svg, fill.0@, color_hex_spec(fill.1)));
}

/// Replacing a pattern by itself gives the text back.
pub proof fn lemma_replace_by_itself(text: Seq<char>, pattern: Seq<char>)
    requires
        pattern.len() > 0,
    ensures
        replaced(text, pattern, pattern) == text,
    decreases text.len(),
{
    if text.len() > 0 {
        if starts_with(text, pattern) {
            lemma_replace_by_itself(text.skip(pattern.len() as int), pattern);
            assert(pattern + text.skip(pattern.len() as int) =~= text);
        } else {
            lemma_replace_by_itself(text.drop_first(), pattern);
            assert(seq![text[0]] + text.drop_first() =~= text);
        }
    }
}

proof fn lemma_paint_by_itself(pieces: Seq<(bool, Seq<char>)>, pattern: Seq<char>)
    requires
        pattern.len() > 0,
    ensures
        joined(paint(pieces, pattern, pattern)) == joined(pieces),
    decreases pieces.len(),
{
    if pieces.len() > 0 {
        let init = pieces.drop_last();
        let last = pieces.last();
        lemma_paint_by_itself(init, pattern);
        let tail = if last.0 {
            replace_run(Seq::empty(), last.1, pattern, pattern)
        } else {
            seq![last]
        };
        lemma_joined_add(paint(init, pattern, pattern), tail);
        if last.0 {
            lemma_run_spells_replace(Seq::empty(), last.1, pattern, pattern);
            lemma_replace_by_itself(last.1, pattern);
            assert(Seq::<char>::empty() + last.1 =~= last.1);
        } else {
            lemma_joined_one(last);
        }
    }
}

/// Recolouring with fills whose colours spell their own placeholders
/// leaves the SVG as it is; with no fills at all, too.
pub proof fn lemma_recolor_identity(svg: Seq<char>, fills: Seq<(&str, Rgb8)>)
    requires
        forall|k: int| 0 <= k < fills.len() ==> color_hex_spec(#[trigger] fills[k].1) == fills[k].0@,
    ensures
        recolored(svg, fills) == svg,
    decreases fills.len(),
{
    if fills.len() == 0 {
        lemma_joined_one((true, svg));
    } else {
        let init = fills.drop_last();
        assert forall|k: int| 0 <= k < init.len() implies color_hex_spec(#[trigger] init[k].1) == init[k].0@ by {
            assert(init[k] == fills[k]);
        }
        lemma_recolor_identity(svg, init);
        let last = fills.last();
        assert(color_hex_spec(fills[fills.len() - 1].1) == fills[fills.len() - 1].0@);
        assert(color_hex_spec(last.1).len() == 7);
        lemma_paint_by_itself(painted(svg, init), last.0@);
    }
}

/// Pieces that alternate between text from the source and the inserted
/// `with`: source first and last, and every inserted piece a copy of `with`.
pub open spec fn alternates(pieces: Seq<(bool, Seq<char>)>, with: Seq<char>) -> bool {
    &&& pieces.len() % 2 == 1
    &&& forall|i: int|
        0 <= i < pieces.len() ==> if i % 2 == 0 {
            (#[trigger] pieces[i]).0
        } else {
            pieces[i] == (false, with)
        }
}

proof fn lemma_alternates_prepend(c: Seq<char>, with: Seq<char>, rest: Seq<(bool, Seq<char>)>)
    requires
        alternates(rest, with),
    ensures
        alternates(seq![(true, c), (false, with)] + rest, with),
{
    let all = seq![(true, c), (false, with)] + rest;
    assert forall|i: int| 0 <= i < all.len() implies if i % 2 == 0 {
        (#[trigger] all[i]).0
    } else {
        all[i] == (false, with)
    } by {
        if i >= 2 {
            assert(all[i] == rest[i - 2]);
            assert((i - 2) % 2 == i % 2);
        }
    }
}

/// One replacement only marks what it puts in: its pieces alternate
/// between text from the source and copies of the replacement, so every
/// piece that later fills pass over is a colour this fill inserted, and
/// every other piece stays open to them.
pub proof fn lemma_run_alternates(cur: Seq<char>, text: Seq<char>, pattern: Seq<char>, with: Seq<char>)
    ensures
        alternates(replace_run(cur, text, pattern, with), with),
    decreases text.len(),
{
    if pattern.len() == 0 {
        if text.len() == 0 {
            let three = seq![(true, cur), (false, with), (true, Seq::<char>::empty())];
            assert(alternates(three, with));
        } else {
            lemma_run_alternates(seq![text[0]], text.drop_first(), pattern, with);
            lemma_alternates_prepend(cur, with, replace_run(seq![text[0]], text.drop_first(), pattern, with));
        }
    } else if text.len() == 0 {
        assert(alternates(seq![(true, cur)], with));
    } else if starts_with(text, pattern) {
        lemma_run_alternates(Seq::empty(), text.skip(pattern.len() as int), pattern, with);
        lemma_alternates_prepend(cur, with, replace_run(Seq::empty(), text.skip(pattern.len() as int), pattern, with));
    } else {
        lemma_run_alternates(cur.push(text[0]), text.drop_first(), pattern, with);
    }
}

/// The text of pieces in which every piece from the source has `pattern`
/// replaced by `with`, as `str::replace` does, and every inserted piece is
/// kept as it is.
pub open spec fn respelled(pieces: Seq<(bool, Seq<char>)>, pattern: Seq<char>, with: Seq<char>) -> Seq<char>
    decreases pieces.len(),
{
    if pieces.len() == 0 {
        Seq::empty()
    } else {
        respelled(pieces.drop_last(), pattern, with) + (if pieces.last().0 {
            replaced(pieces.last().1, pattern, with)
        } else {
            pieces.last().1
        })
    }
}

/// A fill replaces its placeholder, as `str::replace` does, in every piece
/// from the source, and leaves the colours inserted before it untouched.
pub proof fn lemma_paint_spells(pieces: Seq<(bool, Seq<char>)>, pattern: Seq<char>, with: Seq<char>)
    ensures
        joined(paint(pieces, pattern, with)) == respelled(pieces, pattern, with),
    decreases pieces.len(),
{
    if pieces.len() > 0 {
        let init = pieces.drop_last();
        let last = pieces.last();
        lemma_paint_spells(init, pattern, with);
        let tail = if last.0 {
            replace_run(Seq::empty(), last.1, pattern, with)
        } else {
            seq![last]
        };
        lemma_joined_add(paint(init, pattern, with), tail);
        if last.0 {
            lemma_run_spells_replace(Seq::empty(), last.1, pattern, with);
            assert(Seq::<char>::empty() + replaced(last.1, pattern, with) =~= replaced(
                last.1,
                pattern,
                with,
            ));
        } else {
            lemma_joined_one(last);
        }
    } else {
        assert(joined(Seq::<(bool, Seq<char>)>::empty()) == Seq::<char>::empty());
    }
}

proof fn lemma_run_short(cur: Seq<char>, text: Seq<char>, pattern: Seq<char>, with: Seq<char>)
    requires
        0 < pattern.len(),
        text.len() < pattern.len(),
    ensures
        replace_run(cur, text, pattern, with) == seq![(true, cur + text)],
    decreases text.len(),
{
    if text.len() == 0 {
        assert(cur + text =~= cur);
    } else {
        lemma_run_short(cur.push(text[0]), text.drop_first(), pattern, with);
        assert(cur.push(text[0]) + text.drop_first() =~= cur + text);
    }
}

/// Painting with a non-empty pattern leaves pieces alone whose source
/// parts are all empty.
proof fn lemma_paint_empty_sources(pieces: Seq<(bool, Seq<char>)>, pattern: Seq<char>, with: Seq<char>)
    requires
        0 < pattern.len(),
        forall|i: int| 0 <= i < pieces.len() && (#[trigger] pieces[i]).0 ==> pieces[i].1.len() == 0,
    ensures
        paint(pieces, pattern, with) == pieces,
    decreases pieces.len(),
{
    if pieces.len() > 0 {
        let init = pieces.drop_last();
        assert forall|i: int| 0 <= i < init.len() && (#[trigger] init[i]).0 implies init[i].1.len() == 0 by {
            assert(init[i] == pieces[i]);
        }
        lemma_paint_empty_sources(init, pattern, with);
        let last = pieces.last();
        if last.0 {
            assert(pieces[pieces.len() - 1].1.len() == 0);
            lemma_run_short(Seq::empty(), last.1, pattern, with);
            assert(Seq::<char>::empty() + last.1 =~= last.1);
        }
        assert(init + seq![last] =~= pieces);
    } else {
        assert(paint(pieces, pattern, with) =~= pieces);
    }
}

/// A text that is exactly the placeholder of the first fill comes out as
/// that fill's colour, whatever non-empty placeholders the later fills
/// have: later fills never reach into the inserted colour.
pub proof fn lemma_lone_placeholder(first: (&str, Rgb8), later: Seq<(&str, Rgb8)>)
    requires
        first.0@.len() > 0,
        forall|k: int| 0 <= k < later.len() ==> (#[trigger] later[k]).0@.len() > 0,
    ensures
        recolored(first.0@, seq![first] + later) == color_hex_spec(first.1),
{
    let h = color_hex_spec(first.1);
    let two = seq![(true, Seq::<char>::empty()), (false, h)];
    let three = seq![(true, Seq::<char>::empty()), (false, h), (true, Seq::<char>::empty())];
    lemma_painted_lone(first, later);
    lemma_joined_one((true, Seq::<char>::empty()));
    lemma_joined_two((true, Seq::<char>::empty()), (false, h));
    lemma_joined_add(two, seq![(true, Seq::<char>::empty())]);
    assert(two + seq![(true, Seq::<char>::empty())] =~= three);
    assert(Seq::<char>::empty() + h + Seq::<char>::empty() =~= h);
}

/// The pieces of a lone placeholder keep empty source pieces.
proof fn lemma_painted_lone(first: (&str, Rgb8), later: Seq<(&str, Rgb8)>)
    requires
        first.0@.len() > 0,
        forall|k: int| 0 <= k < later.len() ==> (#[trigger] later[k]).0@.len() > 0,
    ensures
        painted(first.0@, seq![first] + later) == seq![
            (true, Seq::<char>::empty()),
            (false, color_hex_spec(first.1)),
            (true, Seq::<char>::empty()),
        ],
    decreases later.len(),
{
    let fills = seq![first] + later;
    let p = first.0@;
    let h = color_hex_spec(first.1);
    let three = seq![(true, Seq::<char>::empty()), (false, h), (true, Seq::<char>::empty())];
    if later.len() == 0 {
        assert(fills.drop_last() =~= Seq::<(&str, Rgb8)>::empty());
        let start = seq![(true, p)];
        assert(painted(p, fills.drop_last()) == start);
        assert(start.drop_last() =~= Seq::<(bool, Seq<char>)>::empty());
        assert(paint(start.drop_last(), p, h) == Seq::<(bool, Seq<char>)>::empty());
        assert(p.take(p.len() as int) =~= p);
        assert(p.skip(p.len() as int) =~= Seq::<char>::empty());
        assert(starts_with(p, p));
        assert(replace_run(Seq::empty(), p.skip(p.len() as int), p, h) == seq![(true, Seq::<char>::empty())]);
        assert(replace_run(Seq::empty(), p, p, h) =~= three);
        assert(paint(start, p, h) =~= three);
    } else {
        let init = later.drop_last();
        assert forall|k: int| 0 <= k < init.len() implies (#[trigger] init[k]).0@.len() > 0 by {
            assert(init[k] == later[k]);
        }
        lemma_painted_lone(first, init);
        assert(fills.drop_last() =~= seq![first] + init);
        assert(fills.last() == later[later.len() - 1]);
        lemma_paint_empty_sources(three, fills.last().0@, color_hex_spec(fills.last().1));
    }
}

} // verus!
