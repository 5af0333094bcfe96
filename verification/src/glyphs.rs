use vstd::prelude::*;

verus! {

/// Every stroke endpoint of the table lies inside the authoring box: between
/// 0 and one and a half times the glyph box on both axes (a few descenders
/// and tails reach below the baseline box).
pub open spec fn seg_in_glyph_box(s: ((i32, i32), (i32, i32))) -> bool {
    0 <= s.0.0 <= 450 && 0 <= s.0.1 <= 450 && 0 <= s.1.0 <= 450 && 0 <= s.1.1 <= 450
}

/// The strokes of one character, in glyph space: an ordered list of line
/// segments, each coordinate a multiple of one three-hundredth of the glyph
/// box. A character the table does not know has no strokes and renders as a
/// blank advance.
pub open spec fn glyph_segments(c: char) -> Seq<((i32, i32), (i32, i32))> {
    match c {
        ' ' => seq![],
        '!' => seq![((150, 0), (150, 180)), ((150, 270), (150, 300))],
        '"' => seq![((90, 0), (90, 60)), ((210, 0), (210, 60))],
        '#' => seq![((75, 0), (75, 300)), ((225, 0), (225, 300)), ((0, 75), (300, 75)), ((0, 225), (300, 225))],
        '$' => seq![((150, 0), (150, 300)), ((300, 30), (300, 90)), ((0, 30), (300, 30)), ((0, 30), (0, 150)), ((0, 150), (300, 150)), ((300, 150), (300, 270)), ((300, 270), (0, 270)), ((0, 270), (0, 210))],
        '%' => seq![((300, 0), (0, 300)), ((0, 0), (90, 0)), ((90, 0), (90, 90)), ((90, 90), (0, 90)), ((0, 90), (0, 0)), ((210, 210), (300, 210)), ((300, 210), (300, 300)), ((300, 300), (210, 300)), ((210, 300), (210, 210))],
        '&' => seq![((300, 300), (0, 75)), ((0, 75), (75, 0)), ((75, 0), (150, 0)), ((150, 0), (225, 75)), ((225, 75), (0, 225)), ((0, 225), (0, 300)), ((0, 300), (150, 300)), ((150, 300), (300, 150))],
        '\'' => seq![((150, 0), (150, 60))],
        '(' => seq![((75, 0), (0, 75)), ((0, 75), (0, 225)), ((0, 225), (75, 300))],
        ')' => seq![((225, 0), (300, 75)), ((300, 75), (300, 225)), ((300, 225), (225, 300))],
        '*' => seq![((60, 30), (240, 90)), ((240, 30), (60, 90)), ((150, 0), (150, 120))],
        '+' => seq![((150, 75), (150, 225)), ((60, 150), (240, 150))],
        ',' => seq![((120, 210), (150, 300))],
        '-' => seq![((30, 150), (270, 150))],
        '.' => seq![((90, 240), (210, 240)), ((210, 240), (210, 300)), ((210, 300), (90, 300)), ((90, 300), (90, 240))],
        '/' => seq![((0, 300), (300, 0))],
        '0' => seq![((0, 0), (0, 300)), ((0, 300), (300, 300)), ((300, 300), (300, 0)), ((300, 0), (0, 0)), ((300, 0), (0, 300))],
        '1' => seq![((0, 150), (150, 0)), ((150, 0), (150, 300)), ((0, 300), (300, 300))],
        '2' => seq![((0, 100), (0, 0)), ((0, 0), (300, 0)), ((300, 0), (300, 100)), ((300, 100), (0, 300)), ((0, 300), (300, 300))],
        '3' => seq![((0, 0), (300, 0)), ((300, 0), (300, 300)), ((300, 300), (0, 300)), ((100, 150), (300, 150))],
        '4' => seq![((0, 0), (0, 150)), ((0, 150), (300, 150)), ((300, 0), (300, 300))],
        '5' => seq![((300, 0), (0, 0)), ((0, 0), (0, 150)), ((0, 150), (300, 150)), ((300, 150), (300, 300)), ((300, 300), (0, 300))],
        '6' => seq![((0, 0), (0, 300)), ((0, 300), (300, 300)), ((300, 300), (300, 150)), ((300, 150), (0, 150))],
        '7' => seq![((0, 0), (300, 0)), ((300, 0), (0, 300))],
        '8' => seq![((0, 0), (300, 0)), ((300, 0), (300, 300)), ((300, 300), (0, 300)), ((0, 300), (0, 0)), ((0, 150), (300, 150))],
        '9' => seq![((300, 150), (0, 150)), ((0, 150), (0, 0)), ((0, 0), (300, 0)), ((300, 0), (300, 300))],
        ':' => seq![((90, 60), (210, 60)), ((210, 60), (210, 120)), ((210, 120), (90, 120)), ((90, 120), (90, 60)), ((90, 180), (210, 180)), ((210, 180), (210, 240)), ((210, 240), (90, 240)), ((90, 240), (90, 180))],
        ';' => seq![((90, 60), (210, 60)), ((210, 60), (210, 120)), ((210, 120), (90, 120)), ((90, 120), (90, 60)), ((150, 210), (180, 300))],
        '<' => seq![((0, 150), (300, 90)), ((0, 150), (300, 210))],
        '=' => seq![((0, 120), (300, 120)), ((0, 180), (300, 180))],
        '>' => seq![((300, 150), (0, 90)), ((300, 150), (0, 210))],
        '?' => seq![((0, 75), (0, 0)), ((0, 0), (300, 0)), ((300, 0), (300, 150)), ((300, 150), (150, 150)), ((150, 150), (150, 210)), ((150, 240), (150, 300))],
        '@' => seq![((300, 150), (150, 150)), ((150, 150), (150, 240)), ((150, 240), (300, 240)), ((300, 240), (300, 0)), ((300, 0), (0, 0)), ((0, 0), (0, 300)), ((0, 300), (300, 300))],
        'A' => seq![((150, 0), (0, 300)), ((150, 0), (300, 300)), ((50, 200), (250, 200))],
        'B' => seq![((0, 0), (200, 0)), ((200, 0), (300, 50)), ((300, 50), (300, 100)), ((300, 100), (200, 150)), ((200, 150), (300, 200)), ((300, 200), (300, 250)), ((300, 250), (200, 300)), ((200, 300), (0, 300)), ((0, 0), (0, 300)), ((0, 150), (200, 150))],
        'C' => seq![((0, 0), (300, 0)), ((0, 0), (0, 300)), ((0, 300), (300, 300))],
        'D' => seq![((0, 0), (0, 300)), ((0, 0), (200, 0)), ((200, 0), (300, 100)), ((300, 100), (300, 200)), ((300, 200), (200, 300)), ((200, 300), (0, 300))],
        'E' => seq![((0, 0), (0, 300)), ((0, 0), (300, 0)), ((0, 150), (200, 150)), ((0, 300), (300, 300))],
        'F' => seq![((0, 0), (0, 300)), ((0, 0), (300, 0)), ((0, 150), (200, 150))],
        'G' => seq![((0, 0), (300, 0)), ((0, 0), (0, 300)), ((0, 300), (300, 300)), ((300, 300), (300, 150)), ((300, 150), (150, 150))],
        'H' => seq![((0, 0), (0, 300)), ((0, 150), (300, 150)), ((300, 0), (300, 300))],
        'I' => seq![((0, 0), (300, 0)), ((150, 0), (150, 300)), ((0, 300), (300, 300))],
        'J' => seq![((300, 0), (300, 300)), ((0, 150), (0, 300)), ((0, 300), (300, 300))],
        'K' => seq![((0, 0), (0, 300)), ((0, 150), (300, 0)), ((0, 150), (300, 300))],
        'L' => seq![((0, 0), (0, 300)), ((0, 300), (300, 300))],
        'M' => seq![((0, 0), (0, 300)), ((0, 0), (150, 300)), ((150, 300), (300, 0)), ((300, 0), (300, 300))],
        'N' => seq![((0, 0), (0, 300)), ((0, 0), (300, 300)), ((300, 0), (300, 300))],
        'O' => seq![((0, 0), (0, 300)), ((0, 300), (300, 300)), ((300, 300), (300, 0)), ((300, 0), (0, 0))],
        'P' => seq![((0, 0), (0, 300)), ((0, 0), (300, 0)), ((300, 0), (300, 150)), ((300, 150), (0, 150))],
        'Q' => seq![((200, 200), (330, 330)), ((0, 0), (0, 300)), ((0, 300), (300, 300)), ((300, 300), (300, 0)), ((300, 0), (0, 0))],
        'R' => seq![((0, 0), (0, 300)), ((0, 0), (300, 0)), ((300, 0), (300, 150)), ((300, 150), (0, 150)), ((0, 150), (300, 300))],
        'S' => seq![((300, 0), (300, 60)), ((0, 0), (300, 0)), ((0, 0), (0, 150)), ((0, 150), (300, 150)), ((300, 150), (300, 300)), ((300, 300), (0, 300)), ((0, 300), (0, 240))],
        'T' => seq![((0, 0), (300, 0)), ((150, 0), (150, 300))],
        'U' => seq![((0, 0), (0, 300)), ((0, 300), (300, 300)), ((300, 300), (300, 0))],
        'V' => seq![((0, 0), (150, 300)), ((300, 0), (150, 300))],
        'W' => seq![((0, 0), (0, 300)), ((0, 300), (150, 150)), ((150, 150), (300, 300)), ((300, 300), (300, 0))],
        'X' => seq![((0, 0), (300, 300)), ((300, 0), (0, 300))],
        'Y' => seq![((0, 0), (150, 150)), ((150, 150), (300, 0)), ((150, 150), (150, 300))],
        'Z' => seq![((0, 0), (300, 0)), ((300, 0), (0, 300)), ((0, 300), (300, 300))],
        '[' => seq![((0, 0), (150, 0)), ((0, 0), (0, 300)), ((0, 300), (150, 300))],
        '\\' => seq![((0, 0), (300, 300))],
        ']' => seq![((150, 0), (300, 0)), ((300, 0), (300, 300)), ((150, 300), (300, 300))],
        '^' => seq![((150, 0), (30, 150)), ((150, 0), (270, 150))],
        '_' => seq![((0, 300), (300, 300))],
        '`' => seq![((60, 0), (180, 75))],
        'a' => seq![((300, 225), (0, 225)), ((0, 225), (0, 300)), ((0, 300), (300, 300)), ((300, 300), (300, 150)), ((300, 150), (0, 150))],
        'b' => seq![((0, 0), (0, 300)), ((0, 300), (300, 300)), ((300, 300), (300, 150)), ((300, 150), (0, 150))],
        'c' => seq![((0, 150), (300, 150)), ((0, 150), (0, 300)), ((0, 300), (300, 300))],
        'd' => seq![((300, 0), (300, 300)), ((300, 300), (0, 300)), ((0, 300), (0, 150)), ((0, 150), (300, 150))],
        'e' => seq![((0, 225), (300, 225)), ((300, 225), (300, 150)), ((300, 150), (0, 150)), ((0, 150), (0, 300)), ((0, 300), (300, 300))],
        'f' => seq![((150, 0), (150, 300)), ((150, 0), (300, 0)), ((0, 114), (300, 114))],
        'g' => seq![((0, 150), (300, 150)), ((0, 150), (0, 300)), ((0, 300), (300, 300)), ((300, 150), (300, 450)), ((300, 450), (0, 450))],
        'h' => seq![((0, 0), (0, 300)), ((0, 150), (300, 150)), ((300, 150), (300, 300))],
        'i' => seq![((150, 60), (150, 90)), ((150, 150), (150, 300)), ((90, 150), (150, 150)), ((60, 300), (240, 300))],
        'j' => seq![((300, 150), (300, 450)), ((300, 450), (0, 450)), ((0, 450), (0, 400)), ((300, 60), (300, 90))],
        'k' => seq![((0, 0), (0, 300)), ((0, 210), (300, 120)), ((0, 210), (300, 300))],
        'l' => seq![((150, 0), (150, 300))],
        'm' => seq![((300, 150), (300, 300)), ((0, 150), (0, 300)), ((0, 150), (300, 150)), ((150, 150), (150, 300))],
        'n' => seq![((300, 150), (300, 300)), ((0, 150), (0, 300)), ((0, 150), (300, 150))],
        'o' => seq![((0, 150), (0, 300)), ((0, 300), (300, 300)), ((300, 300), (300, 150)), ((300, 150), (0, 150))],
        'p' => seq![((0, 150), (0, 450)), ((0, 150), (300, 150)), ((300, 150), (300, 300)), ((300, 300), (0, 300))],
        'q' => seq![((0, 150), (300, 150)), ((0, 150), (0, 300)), ((0, 300), (300, 300)), ((300, 150), (300, 450)), ((300, 450), (360, 390))],
        'r' => seq![((0, 150), (0, 300)), ((0, 150), (300, 150))],
        's' => seq![((0, 150), (300, 150)), ((0, 150), (0, 225)), ((0, 225), (300, 225)), ((300, 225), (300, 300)), ((300, 300), (0, 300))],
        't' => seq![((150, 0), (150, 300)), ((0, 114), (300, 114))],
        'u' => seq![((0, 150), (0, 300)), ((0, 300), (300, 300)), ((300, 300), (300, 150))],
        'v' => seq![((0, 150), (150, 300)), ((150, 300), (300, 150))],
        'w' => seq![((0, 150), (0, 300)), ((0, 300), (300, 300)), ((300, 300), (300, 150)), ((150, 300), (150, 210))],
        'x' => seq![((0, 150), (300, 300)), ((300, 150), (0, 300))],
        'y' => seq![((0, 150), (150, 300)), ((300, 150), (0, 450))],
        'z' => seq![((0, 150), (300, 150)), ((300, 150), (0, 300)), ((0, 300), (300, 300))],
        '{' => seq![((150, 0), (75, 0)), ((75, 0), (75, 120)), ((75, 120), (0, 150)), ((0, 150), (75, 180)), ((75, 180), (75, 300)), ((75, 300), (150, 300))],
        '|' => seq![((150, 0), (150, 300))],
        '}' => seq![((150, 0), (225, 0)), ((225, 0), (225, 120)), ((225, 120), (300, 150)), ((300, 150), (225, 180)), ((225, 180), (225, 300)), ((225, 300), (150, 300))],
        '~' => seq![((0, 150), (75, 120)), ((75, 120), (225, 180)), ((225, 180), (300, 150))],
        _ => seq![],
    }
}

fn segs1(s0: ((i32, i32), (i32, i32))) -> (r: Vec<((i32, i32), (i32, i32))>)
    ensures
        r@ == seq![s0],
{
    let mut v: Vec<((i32, i32), (i32, i32))> = Vec::new();
    v.push(s0);
    proof { assert(v@ =~= seq![s0]); }
    v
}

fn segs2(s0: ((i32, i32), (i32, i32)), s1: ((i32, i32), (i32, i32))) -> (r: Vec<((i32, i32), (i32, i32))>)
    ensures
        r@ == seq![s0, s1],
{
    let mut v: Vec<((i32, i32), (i32, i32))> = Vec::new();
    v.push(s0);
    v.push(s1);
    proof { assert(v@ =~= seq![s0, s1]); }
    v
}

fn segs3(s0: ((i32, i32), (i32, i32)), s1: ((i32, i32), (i32, i32)), s2: ((i32, i32), (i32, i32))) -> (r: Vec<((i32, i32), (i32, i32))>)
    ensures
        r@ == seq![s0, s1, s2],
{
    let mut v: Vec<((i32, i32), (i32, i32))> = Vec::new();
    v.push(s0);
    v.push(s1);
    v.push(s2);
    proof { assert(v@ =~= seq![s0, s1, s2]); }
    v
}

fn segs4(s0: ((i32, i32), (i32, i32)), s1: ((i32, i32), (i32, i32)), s2: ((i32, i32), (i32, i32)), s3: ((i32, i32), (i32, i32))) -> (r: Vec<((i32, i32), (i32, i32))>)
    ensures
        r@ == seq![s0, s1, s2, s3],
{
    let mut v: Vec<((i32, i32), (i32, i32))> = Vec::new();
    v.push(s0);
    v.push(s1);
    v.push(s2);
    v.push(s3);
    proof { assert(v@ =~= seq![s0, s1, s2, s3]); }
    v
}

fn segs5(s0: ((i32, i32), (i32, i32)), s1: ((i32, i32), (i32, i32)), s2: ((i32, i32), (i32, i32)), s3: ((i32, i32), (i32, i32)), s4: ((i32, i32), (i32, i32))) -> (r: Vec<((i32, i32), (i32, i32))>)
    ensures
        r@ == seq![s0, s1, s2, s3, s4],
{
    let mut v: Vec<((i32, i32), (i32, i32))> = Vec::new();
    v.push(s0);
    v.push(s1);
    v.push(s2);
    v.push(s3);
    v.push(s4);
    proof { assert(v@ =~= seq![s0, s1, s2, s3, s4]); }
    v
}

fn segs6(s0: ((i32, i32), (i32, i32)), s1: ((i32, i32), (i32, i32)), s2: ((i32, i32), (i32, i32)), s3: ((i32, i32), (i32, i32)), s4: ((i32, i32), (i32, i32)), s5: ((i32, i32), (i32, i32))) -> (r: Vec<((i32, i32), (i32, i32))>)
    ensures
        r@ == seq![s0, s1, s2, s3, s4, s5],
{
    let mut v: Vec<((i32, i32), (i32, i32))> = Vec::new();
    v.push(s0);
    v.push(s1);
    v.push(s2);
    v.push(s3);
    v.push(s4);
    v.push(s5);
    proof { assert(v@ =~= seq![s0, s1, s2, s3, s4, s5]); }
    v
}

fn segs7(s0: ((i32, i32), (i32, i32)), s1: ((i32, i32), (i32, i32)), s2: ((i32, i32), (i32, i32)), s3: ((i32, i32), (i32, i32)), s4: ((i32, i32), (i32, i32)), s5: ((i32, i32), (i32, i32)), s6: ((i32, i32), (i32, i32))) -> (r: Vec<((i32, i32), (i32, i32))>)
    ensures
        r@ == seq![s0, s1, s2, s3, s4, s5, s6],
{
    let mut v: Vec<((i32, i32), (i32, i32))> = Vec::new();
    v.push(s0);
    v.push(s1);
    v.push(s2);
    v.push(s3);
    v.push(s4);
    v.push(s5);
    v.push(s6);
    proof { assert(v@ =~= seq![s0, s1, s2, s3, s4, s5, s6]); }
    v
}

fn segs8(s0: ((i32, i32), (i32, i32)), s1: ((i32, i32), (i32, i32)), s2: ((i32, i32), (i32, i32)), s3: ((i32, i32), (i32, i32)), s4: ((i32, i32), (i32, i32)), s5: ((i32, i32), (i32, i32)), s6: ((i32, i32), (i32, i32)), s7: ((i32, i32), (i32, i32))) -> (r: Vec<((i32, i32), (i32, i32))>)
    ensures
        r@ == seq![s0, s1, s2, s3, s4, s5, s6, s7],
{
    let mut v: Vec<((i32, i32), (i32, i32))> = Vec::new();
    v.push(s0);
    v.push(s1);
    v.push(s2);
    v.push(s3);
    v.push(s4);
    v.push(s5);
    v.push(s6);
    v.push(s7);
    proof { assert(v@ =~= seq![s0, s1, s2, s3, s4, s5, s6, s7]); }
    v
}

fn segs9(s0: ((i32, i32), (i32, i32)), s1: ((i32, i32), (i32, i32)), s2: ((i32, i32), (i32, i32)), s3: ((i32, i32), (i32, i32)), s4: ((i32, i32), (i32, i32)), s5: ((i32, i32), (i32, i32)), s6: ((i32, i32), (i32, i32)), s7: ((i32, i32), (i32, i32)), s8: ((i32, i32), (i32, i32))) -> (r: Vec<((i32, i32), (i32, i32))>)
    ensures
        r@ == seq![s0, s1, s2, s3, s4, s5, s6, s7, s8],
{
    let mut v: Vec<((i32, i32), (i32, i32))> = Vec::new();
    v.push(s0);
    v.push(s1);
    v.push(s2);
    v.push(s3);
    v.push(s4);
    v.push(s5);
    v.push(s6);
    v.push(s7);
    v.push(s8);
    proof { assert(v@ =~= seq![s0, s1, s2, s3, s4, s5, s6, s7, s8]); }
    v
}

fn segs10(s0: ((i32, i32), (i32, i32)), s1: ((i32, i32), (i32, i32)), s2: ((i32, i32), (i32, i32)), s3: ((i32, i32), (i32, i32)), s4: ((i32, i32), (i32, i32)), s5: ((i32, i32), (i32, i32)), s6: ((i32, i32), (i32, i32)), s7: ((i32, i32), (i32, i32)), s8: ((i32, i32), (i32, i32)), s9: ((i32, i32), (i32, i32))) -> (r: Vec<((i32, i32), (i32, i32))>)
    ensures
        r@ == seq![s0, s1, s2, s3, s4, s5, s6, s7, s8, s9],
{
    let mut v: Vec<((i32, i32), (i32, i32))> = Vec::new();
    v.push(s0);
    v.push(s1);
    v.push(s2);
    v.push(s3);
    v.push(s4);
    v.push(s5);
    v.push(s6);
    v.push(s7);
    v.push(s8);
    v.push(s9);
    proof { assert(v@ =~= seq![s0, s1, s2, s3, s4, s5, s6, s7, s8, s9]); }
    v
}

/// The strokes of one character, exactly as `glyph_segments` lists them, and
/// every endpoint inside the glyph authoring box.
#[verifier::rlimit(100)]
pub fn char_lines(c: char) -> (r: Vec<((i32, i32), (i32, i32))>)
    ensures
        r@ == glyph_segments(c),
        forall|j: int| 0 <= j < r@.len() ==> seg_in_glyph_box(#[trigger] r@[j]),
{
    match c {
        ' ' => Vec::new(),
        '!' => segs2(((150, 0), (150, 180)), ((150, 270), (150, 300))),
        '"' => segs2(((90, 0), (90, 60)), ((210, 0), (210, 60))),
        '#' => segs4(((75, 0), (75, 300)), ((225, 0), (225, 300)), ((0, 75), (300, 75)), ((0, 225), (300, 225))),
        '$' => segs8(((150, 0), (150, 300)), ((300, 30), (300, 90)), ((0, 30), (300, 30)), ((0, 30), (0, 150)), ((0, 150), (300, 150)), ((300, 150), (300, 270)), ((300, 270), (0, 270)), ((0, 270), (0, 210))),
        '%' => segs9(((300, 0), (0, 300)), ((0, 0), (90, 0)), ((90, 0), (90, 90)), ((90, 90), (0, 90)), ((0, 90), (0, 0)), ((210, 210), (300, 210)), ((300, 210), (300, 300)), ((300, 300), (210, 300)), ((210, 300), (210, 210))),
        '&' => segs8(((300, 300), (0, 75)), ((0, 75), (75, 0)), ((75, 0), (150, 0)), ((150, 0), (225, 75)), ((225, 75), (0, 225)), ((0, 225), (0, 300)), ((0, 300), (150, 300)), ((150, 300), (300, 150))),
        '\'' => segs1(((150, 0), (150, 60))),
        '(' => segs3(((75, 0), (0, 75)), ((0, 75), (0, 225)), ((0, 225), (75, 300))),
        ')' => segs3(((225, 0), (300, 75)), ((300, 75), (300, 225)), ((300, 225), (225, 300))),
        '*' => segs3(((60, 30), (240, 90)), ((240, 30), (60, 90)), ((150, 0), (150, 120))),
        '+' => segs2(((150, 75), (150, 225)), ((60, 150), (240, 150))),
        ',' => segs1(((120, 210), (150, 300))),
        '-' => segs1(((30, 150), (270, 150))),
        '.' => segs4(((90, 240), (210, 240)), ((210, 240), (210, 300)), ((210, 300), (90, 300)), ((90, 300), (90, 240))),
        '/' => segs1(((0, 300), (300, 0))),
        '0' => segs5(((0, 0), (0, 300)), ((0, 300), (300, 300)), ((300, 300), (300, 0)), ((300, 0), (0, 0)), ((300, 0), (0, 300))),
        '1' => segs3(((0, 150), (150, 0)), ((150, 0), (150, 300)), ((0, 300), (300, 300))),
        '2' => segs5(((0, 100), (0, 0)), ((0, 0), (300, 0)), ((300, 0), (300, 100)), ((300, 100), (0, 300)), ((0, 300), (300, 300))),
        '3' => segs4(((0, 0), (300, 0)), ((300, 0), (300, 300)), ((300, 300), (0, 300)), ((100, 150), (300, 150))),
        '4' => segs3(((0, 0), (0, 150)), ((0, 150), (300, 150)), ((300, 0), (300, 300))),
        '5' => segs5(((300, 0), (0, 0)), ((0, 0), (0, 150)), ((0, 150), (300, 150)), ((300, 150), (300, 300)), ((300, 300), (0, 300))),
        '6' => segs4(((0, 0), (0, 300)), ((0, 300), (300, 300)), ((300, 300), (300, 150)), ((300, 150), (0, 150))),
        '7' => segs2(((0, 0), (300, 0)), ((300, 0), (0, 300))),
        '8' => segs5(((0, 0), (300, 0)), ((300, 0), (300, 300)), ((300, 300), (0, 300)), ((0, 300), (0, 0)), ((0, 150), (300, 150))),
        '9' => segs4(((300, 150), (0, 150)), ((0, 150), (0, 0)), ((0, 0), (300, 0)), ((300, 0), (300, 300))),
        ':' => segs8(((90, 60), (210, 60)), ((210, 60), (210, 120)), ((210, 120), (90, 120)), ((90, 120), (90, 60)), ((90, 180), (210, 180)), ((210, 180), (210, 240)), ((210, 240), (90, 240)), ((90, 240), (90, 180))),
        ';' => segs5(((90, 60), (210, 60)), ((210, 60), (210, 120)), ((210, 120), (90, 120)), ((90, 120), (90, 60)), ((150, 210), (180, 300))),
        '<' => segs2(((0, 150), (300, 90)), ((0, 150), (300, 210))),
        '=' => segs2(((0, 120), (300, 120)), ((0, 180), (300, 180))),
        '>' => segs2(((300, 150), (0, 90)), ((300, 150), (0, 210))),
        '?' => segs6(((0, 75), (0, 0)), ((0, 0), (300, 0)), ((300, 0), (300, 150)), ((300, 150), (150, 150)), ((150, 150), (150, 210)), ((150, 240), (150, 300))),
        '@' => segs7(((300, 150), (150, 150)), ((150, 150), (150, 240)), ((150, 240), (300, 240)), ((300, 240), (300, 0)), ((300, 0), (0, 0)), ((0, 0), (0, 300)), ((0, 300), (300, 300))),
        'A' => segs3(((150, 0), (0, 300)), ((150, 0), (300, 300)), ((50, 200), (250, 200))),
        'B' => segs10(((0, 0), (200, 0)), ((200, 0), (300, 50)), ((300, 50), (300, 100)), ((300, 100), (200, 150)), ((200, 150), (300, 200)), ((300, 200), (300, 250)), ((300, 250), (200, 300)), ((200, 300), (0, 300)), ((0, 0), (0, 300)), ((0, 150), (200, 150))),
        'C' => segs3(((0, 0), (300, 0)), ((0, 0), (0, 300)), ((0, 300), (300, 300))),
        'D' => segs6(((0, 0), (0, 300)), ((0, 0), (200, 0)), ((200, 0), (300, 100)), ((300, 100), (300, 200)), ((300, 200), (200, 300)), ((200, 300), (0, 300))),
        'E' => segs4(((0, 0), (0, 300)), ((0, 0), (300, 0)), ((0, 150), (200, 150)), ((0, 300), (300, 300))),
        'F' => segs3(((0, 0), (0, 300)), ((0, 0), (300, 0)), ((0, 150), (200, 150))),
        'G' => segs5(((0, 0), (300, 0)), ((0, 0), (0, 300)), ((0, 300), (300, 300)), ((300, 300), (300, 150)), ((300, 150), (150, 150))),
        'H' => segs3(((0, 0), (0, 300)), ((0, 150), (300, 150)), ((300, 0), (300, 300))),
        'I' => segs3(((0, 0), (300, 0)), ((150, 0), (150, 300)), ((0, 300), (300, 300))),
        'J' => segs3(((300, 0), (300, 300)), ((0, 150), (0, 300)), ((0, 300), (300, 300))),
        'K' => segs3(((0, 0), (0, 300)), ((0, 150), (300, 0)), ((0, 150), (300, 300))),
        'L' => segs2(((0, 0), (0, 300)), ((0, 300), (300, 300))),
        'M' => segs4(((0, 0), (0, 300)), ((0, 0), (150, 300)), ((150, 300), (300, 0)), ((300, 0), (300, 300))),
        'N' => segs3(((0, 0), (0, 300)), ((0, 0), (300, 300)), ((300, 0), (300, 300))),
        'O' => segs4(((0, 0), (0, 300)), ((0, 300), (300, 300)), ((300, 300), (300, 0)), ((300, 0), (0, 0))),
        'P' => segs4(((0, 0), (0, 300)), ((0, 0), (300, 0)), ((300, 0), (300, 150)), ((300, 150), (0, 150))),
        'Q' => segs5(((200, 200), (330, 330)), ((0, 0), (0, 300)), ((0, 300), (300, 300)), ((300, 300), (300, 0)), ((300, 0), (0, 0))),
        'R' => segs5(((0, 0), (0, 300)), ((0, 0), (300, 0)), ((300, 0), (300, 150)), ((300, 150), (0, 150)), ((0, 150), (300, 300))),
        'S' => segs7(((300, 0), (300, 60)), ((0, 0), (300, 0)), ((0, 0), (0, 150)), ((0, 150), (300, 150)), ((300, 150), (300, 300)), ((300, 300), (0, 300)), ((0, 300), (0, 240))),
        'T' => segs2(((0, 0), (300, 0)), ((150, 0), (150, 300))),
        'U' => segs3(((0, 0), (0, 300)), ((0, 300), (300, 300)), ((300, 300), (300, 0))),
        'V' => segs2(((0, 0), (150, 300)), ((300, 0), (150, 300))),
        'W' => segs4(((0, 0), (0, 300)), ((0, 300), (150, 150)), ((150, 150), (300, 300)), ((300, 300), (300, 0))),
        'X' => segs2(((0, 0), (300, 300)), ((300, 0), (0, 300))),
        'Y' => segs3(((0, 0), (150, 150)), ((150, 150), (300, 0)), ((150, 150), (150, 300))),
        'Z' => segs3(((0, 0), (300, 0)), ((300, 0), (0, 300)), ((0, 300), (300, 300))),
        '[' => segs3(((0, 0), (150, 0)), ((0, 0), (0, 300)), ((0, 300), (150, 300))),
        '\\' => segs1(((0, 0), (300, 300))),
        ']' => segs3(((150, 0), (300, 0)), ((300, 0), (300, 300)), ((150, 300), (300, 300))),
        '^' => segs2(((150, 0), (30, 150)), ((150, 0), (270, 150))),
        '_' => segs1(((0, 300), (300, 300))),
        '`' => segs1(((60, 0), (180, 75))),
        'a' => segs5(((300, 225), (0, 225)), ((0, 225), (0, 300)), ((0, 300), (300, 300)), ((300, 300), (300, 150)), ((300, 150), (0, 150))),
        'b' => segs4(((0, 0), (0, 300)), ((0, 300), (300, 300)), ((300, 300), (300, 150)), ((300, 150), (0, 150))),
        'c' => segs3(((0, 150), (300, 150)), ((0, 150), (0, 300)), ((0, 300), (300, 300))),
        'd' => segs4(((300, 0), (300, 300)), ((300, 300), (0, 300)), ((0, 300), (0, 150)), ((0, 150), (300, 150))),
        'e' => segs5(((0, 225), (300, 225)), ((300, 225), (300, 150)), ((300, 150), (0, 150)), ((0, 150), (0, 300)), ((0, 300), (300, 300))),
        'f' => segs3(((150, 0), (150, 300)), ((150, 0), (300, 0)), ((0, 114), (300, 114))),
        'g' => segs5(((0, 150), (300, 150)), ((0, 150), (0, 300)), ((0, 300), (300, 300)), ((300, 150), (300, 450)), ((300, 450), (0, 450))),
        'h' => segs3(((0, 0), (0, 300)), ((0, 150), (300, 150)), ((300, 150), (300, 300))),
        'i' => segs4(((150, 60), (150, 90)), ((150, 150), (150, 300)), ((90, 150), (150, 150)), ((60, 300), (240, 300))),
        'j' => segs4(((300, 150), (300, 450)), ((300, 450), (0, 450)), ((0, 450), (0, 400)), ((300, 60), (300, 90))),
        'k' => segs3(((0, 0), (0, 300)), ((0, 210), (300, 120)), ((0, 210), (300, 300))),
        'l' => segs1(((150, 0), (150, 300))),
        'm' => segs4(((300, 150), (300, 300)), ((0, 150), (0, 300)), ((0, 150), (300, 150)), ((150, 150), (150, 300))),
        'n' => segs3(((300, 150), (300, 300)), ((0, 150), (0, 300)), ((0, 150), (300, 150))),
        'o' => segs4(((0, 150), (0, 300)), ((0, 300), (300, 300)), ((300, 300), (300, 150)), ((300, 150), (0, 150))),
        'p' => segs4(((0, 150), (0, 450)), ((0, 150), (300, 150)), ((300, 150), (300, 300)), ((300, 300), (0, 300))),
        'q' => segs5(((0, 150), (300, 150)), ((0, 150), (0, 300)), ((0, 300), (300, 300)), ((300, 150), (300, 450)), ((300, 450), (360, 390))),
        'r' => segs2(((0, 150), (0, 300)), ((0, 150), (300, 150))),
        's' => segs5(((0, 150), (300, 150)), ((0, 150), (0, 225)), ((0, 225), (300, 225)), ((300, 225), (300, 300)), ((300, 300), (0, 300))),
        't' => segs2(((150, 0), (150, 300)), ((0, 114), (300, 114))),
        'u' => segs3(((0, 150), (0, 300)), ((0, 300), (300, 300)), ((300, 300), (300, 150))),
        'v' => segs2(((0, 150), (150, 300)), ((150, 300), (300, 150))),
        'w' => segs4(((0, 150), (0, 300)), ((0, 300), (300, 300)), ((300, 300), (300, 150)), ((150, 300), (150, 210))),
        'x' => segs2(((0, 150), (300, 300)), ((300, 150), (0, 300))),
        'y' => segs2(((0, 150), (150, 300)), ((300, 150), (0, 450))),
        'z' => segs3(((0, 150), (300, 150)), ((300, 150), (0, 300)), ((0, 300), (300, 300))),
        '{' => segs6(((150, 0), (75, 0)), ((75, 0), (75, 120)), ((75, 120), (0, 150)), ((0, 150), (75, 180)), ((75, 180), (75, 300)), ((75, 300), (150, 300))),
        '|' => segs1(((150, 0), (150, 300))),
        '}' => segs6(((150, 0), (225, 0)), ((225, 0), (225, 120)), ((225, 120), (300, 150)), ((300, 150), (225, 180)), ((225, 180), (225, 300)), ((225, 300), (150, 300))),
        '~' => segs3(((0, 150), (75, 120)), ((75, 120), (225, 180)), ((225, 180), (300, 150))),
        _ => Vec::new(),
    }
}

} // verus!
