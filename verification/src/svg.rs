//! The SVG document that draws traced contours as closed outlines.
use vstd::prelude::*;
use crate::decimal::{decimal, push_decimal};
use crate::geometry::{Point, contours_view};

verus! {

/// The opening `svg` tag, sized to the image.
pub open spec fn svg_header(width: i32, height: i32) -> Seq<char> {
    "<svg xmlns=\"http://www.w3.org/2000/svg\" width=\""@ + decimal(width as int) + "\" height=\""@
        + decimal(height as int) + "\" viewBox=\"0 0 "@ + decimal(width as int) + " "@
        + decimal(height as int) + "\">"@
}

/// The path command for one point: a move to the first point, a line to each later one.
pub open spec fn point_command(p: Point, first: bool) -> Seq<char> {
    if first {
        "M "@ + decimal(p.x as int) + " "@ + decimal(p.y as int)
    } else {
        " L "@ + decimal(p.x as int) + " "@ + decimal(p.y as int)
    }
}

/// The path commands for the points of a contour, in order.
pub open spec fn path_commands(pts: Seq<Point>) -> Seq<char>
    decreases pts.len(),
{
    if pts.len() == 0 {
        Seq::empty()
    } else {
        path_commands(pts.drop_last()) + point_command(pts.last(), pts.len() == 1)
    }
}

/// The `path` element of a contour, closed back to its first point.
pub open spec fn path_element(pts: Seq<Point>) -> Seq<char> {
    "<path d=\""@ + path_commands(pts) + " Z"@
        + "\" fill=\"none\" stroke=\"black\" stroke-width=\"1\"/>"@
}

/// The markup of one contour: nothing for a contour of fewer than two points.
pub open spec fn contour_markup(pts: Seq<Point>) -> Seq<char> {
    if pts.len() < 2 {
        Seq::empty()
    } else {
        path_element(pts)
    }
}

/// The markup of all contours, in order.
pub open spec fn svg_body(cs: Seq<Seq<Point>>) -> Seq<char>
    decreases cs.len(),
{
    if cs.len() == 0 {
        Seq::empty()
    } else {
        svg_body(cs.drop_last()) + contour_markup(cs.last())
    }
}

/// The whole SVG document for contours traced on an image of the given size.
pub open spec fn svg_document(cs: Seq<Seq<Point>>, width: i32, height: i32) -> Seq<char> {
    svg_header(width, height) + svg_body(cs) + "</svg>"@
}

/// The markup of contours one after another is the markup of the first ones
/// followed by that of the rest: each contour is written on its own, in order.
pub proof fn lemma_svg_body_append(a: Seq<Seq<Point>>, b: Seq<Seq<Point>>)
    ensures
        svg_body(a + b) == svg_body(a) + svg_body(b),
    decreases b.len(),
{
    if b.len() == 0 {
        assert(a + b =~= a);
        assert(svg_body(a) + svg_body(b) =~= svg_body(a));
    } else {
        lemma_svg_body_append(a, b.drop_last());
        assert((a + b).drop_last() =~= a + b.drop_last());
        assert((a + b).last() == b.last());
    }
}

/// Whether a contour is drawn: it has at least two points.
pub open spec fn drawn() -> spec_fn(Seq<Point>) -> bool {
    |c: Seq<Point>| c.len() >= 2
}

proof fn lemma_short_contours_skipped(cs: Seq<Seq<Point>>)
    ensures
        svg_body(cs) == svg_body(cs.filter(drawn())),
    decreases cs.len(),
{
    reveal(Seq::filter);
    if cs.len() > 0 {
        lemma_short_contours_skipped(cs.drop_last());
        let f = drawn();
        let rest = cs.drop_last().filter(f);
        if cs.last().len() >= 2 {
            assert(cs.filter(f) == rest.push(cs.last()));
            assert(rest.push(cs.last()).drop_last() =~= rest);
        } else {
            assert(cs.filter(f) == rest);
            assert(svg_body(cs) =~= svg_body(cs.drop_last()));
        }
    }
}

/// Contours of fewer than two points leave no trace: the document is the one
/// of the longer contours alone.
pub proof fn lemma_short_contours_leave_no_trace(cs: Seq<Seq<Point>>, width: i32, height: i32)
    ensures
        svg_document(cs, width, height) == svg_document(cs.filter(drawn()), width, height),
{
    lemma_short_contours_skipped(cs);
}

/// The first point of a path is a move to it: `M x y`.
pub proof fn lemma_path_starts_with_move(p: Point)
    ensures
        path_commands(seq![p]) == "M "@ + decimal(p.x as int) + " "@ + decimal(p.y as int),
{
    assert(seq![p].drop_last() =~= Seq::<Point>::empty());
    assert(path_commands(Seq::<Point>::empty()) == Seq::<char>::empty());
    assert(seq![p].last() == p);
    assert(Seq::<char>::empty() + point_command(p, true) =~= point_command(p, true));
}

/// Each further point of a path adds a line to it: ` L x y`.
pub proof fn lemma_path_adds_line(pts: Seq<Point>, p: Point)
    requires
        pts.len() >= 1,
    ensures
        path_commands(pts.push(p)) == path_commands(pts) + " L "@ + decimal(p.x as int) + " "@ + decimal(
            p.y as int,
        ),
{
    assert(pts.push(p).drop_last() =~= pts);
    assert(path_commands(pts) + " L "@ + decimal(p.x as int) + " "@ + decimal(p.y as int) =~= path_commands(pts)
        + (" L "@ + decimal(p.x as int) + " "@ + decimal(p.y as int)));
}

/// A contour of at least two points is written as one unfilled black path
/// whose data are its point commands closed by `Z`.
pub proof fn lemma_drawn_contour_is_closed_path(c: Seq<Point>)
    requires
        c.len() >= 2,
    ensures
        svg_body(seq![c]) == "<path d=\""@ + path_commands(c) + " Z"@
            + "\" fill=\"none\" stroke=\"black\" stroke-width=\"1\"/>"@,
{
    assert(seq![c].drop_last() =~= Seq::<Seq<Point>>::empty());
    assert(svg_body(Seq::<Seq<Point>>::empty()) == Seq::<char>::empty());
    assert(seq![c].last() == c);
    assert(Seq::<char>::empty() + path_element(c) =~= path_element(c));
}

/// The document of one drawn contour: the `svg` element sized to the image,
/// holding that contour's closed path and nothing else.
pub proof fn lemma_single_contour_document(c: Seq<Point>, width: i32, height: i32)
    requires
        c.len() >= 2,
    ensures
        svg_document(seq![c], width, height) == "<svg xmlns=\"http://www.w3.org/2000/svg\" width=\""@
            + decimal(width as int) + "\" height=\""@ + decimal(height as int) + "\" viewBox=\"0 0 "@
            + decimal(width as int) + " "@ + decimal(height as int) + "\">"@ + "<path d=\""@
            + path_commands(c) + " Z"@ + "\" fill=\"none\" stroke=\"black\" stroke-width=\"1\"/>"@
            + "</svg>"@,
{
    lemma_drawn_contour_is_closed_path(c);
    let h = "<svg xmlns=\"http://www.w3.org/2000/svg\" width=\""@ + decimal(width as int) + "\" height=\""@
        + decimal(height as int) + "\" viewBox=\"0 0 "@ + decimal(width as int) + " "@ + decimal(
        height as int,
    ) + "\">"@;
    let m = "<path d=\""@ + path_commands(c) + " Z"@ + "\" fill=\"none\" stroke=\"black\" stroke-width=\"1\"/>"@;
    assert(svg_document(seq![c], width, height) =~= h + m + "</svg>"@);
    assert(h + m + "</svg>"@ =~= "<svg xmlns=\"http://www.w3.org/2000/svg\" width=\""@ + decimal(width as int)
        + "\" height=\""@ + decimal(height as int) + "\" viewBox=\"0 0 "@ + decimal(width as int) + " "@
        + decimal(height as int) + "\">"@ + "<path d=\""@ + path_commands(c) + " Z"@
        + "\" fill=\"none\" stroke=\"black\" stroke-width=\"1\"/>"@ + "</svg>"@);
}

fn push_path_commands(out: &mut String, contour: &Vec<Point>)
    ensures
        final(out)@ == old(out)@ + path_commands(contour@),
{
    let n = contour.len();
    for j in 0..n
        invariant
            n == contour@.len(),
            out@ == old(out)@ + path_commands(contour@.take(j as int)),
    {
        let p = contour[j];
        let ghost before = out@;
        if j == 0 {
            out.append("M ");
        } else {
            out.append(" L ");
        }
        push_decimal(out, p.x);
        out.append(" ");
        push_decimal(out, p.y);
        proof {
            let t = contour@.take(j + 1);
            assert(t.drop_last() =~= contour@.take(j as int));
            assert(t.last() == p);
            assert(out@ =~= before + point_command(p, j == 0));
        }
    }
    proof {
        assert(contour@.take(n as int) =~= contour@);
    }
}

/// Writes the contours as an SVG document of the image's size: one closed,
/// unfilled, black outline per contour of at least two points, in the
/// contours' order; shorter contours are left out.
pub fn build_svg_from_contours(contours: &Vec<Vec<Point>>, img_width: i32, img_height: i32) -> (svg: String)
    ensures
        svg@ == svg_document(contours_view(contours@), img_width, img_height),
{
    let mut svg = String::new();
    svg.append("<svg xmlns=\"http://www.w3.org/2000/svg\" width=\"");
    push_decimal(&mut svg, img_width);
    svg.append("\" height=\"");
    push_decimal(&mut svg, img_height);
    svg.append("\" viewBox=\"0 0 ");
    push_decimal(&mut svg, img_width);
    svg.append(" ");
    push_decimal(&mut svg, img_height);
    svg.append("\">");
    let ghost header = svg@;
    assert(header =~= svg_header(img_width, img_height));
    let ghost cs = contours_view(contours@);
    let n = contours.len();
    for i in 0..n
        invariant
            n == contours@.len(),
            cs == contours_view(contours@),
            header == svg_header(img_width, img_height),
            svg@ == header + svg_body(cs.take(i as int)),
    {
        let contour = &contours[i];
        let ghost before = svg@;
        if contour.len() >= 2 {
            svg.append("<path d=\"");
            push_path_commands(&mut svg, contour);
            svg.append(" Z");
            svg.append("\" fill=\"none\" stroke=\"black\" stroke-width=\"1\"/>");
        }
        proof {
            let t = cs.take(i + 1);
            assert(t.drop_last() =~= cs.take(i as int));
            assert(t.last() == contour@);
            assert(svg@ =~= before + contour_markup(contour@));
        }
    }
    svg.append("</svg>");
    proof {
        assert(cs.take(n as int) =~= cs);
    }
    svg
}

} // verus!
