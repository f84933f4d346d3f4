//! RevBurner tachometer XML: reading the calibration points back, and the
//! wizard's rpm targets and the file it writes.
use vstd::prelude::*;
use crate::cli::{all_digits, digits_value, is_digit, lemma_digits_nonneg, spec_parse_u32, u32_or, DIGITS_CAP};
use crate::text::{dec, eq_ascii_ci, lower_ascii, lower_char, push_str, push_u64, string_of};
use vstd::string::StrSliceExecFns;

verus! {

pub const TACH_ELEMENT_SETTINGS_ITEM: &'static str = "SettingsItem";
pub const TACH_ELEMENT_VALUE: &'static str = "Value";
pub const TACH_ELEMENT_TIME_VALUE: &'static str = "TimeValue";
pub const ERR_INVALID_XML: &'static str = "invalid tachometer xml";
pub const ERR_NO_SETTINGS: &'static str = "tachometer xml contains no settings";

/// One calibration point: the rpm and the pulses that show it.
#[derive(Clone, Copy, Debug, PartialEq, Eq, Structural)]
pub struct TachPoint {
    pub rpm: u32,
    pub pulses: u32,
}

/// An XML element: its name, its text, and its child elements.
pub struct XmlNode {
    pub name: Seq<char>,
    pub text: Seq<char>,
    pub children: Seq<XmlNode>,
}

/// `char::is_whitespace`: the Unicode White_Space characters.
pub open spec fn is_ws(c: char) -> bool {
    ('\t' <= c <= '\r') || c == ' ' || c == '\u{85}' || c == '\u{a0}' || c == '\u{1680}' || ('\u{2000}' <= c
        <= '\u{200a}') || c == '\u{2028}' || c == '\u{2029}' || c == '\u{202f}' || c == '\u{205f}' || c
        == '\u{3000}'
}

/// The first position from `pos` on that holds no whitespace, or the end.
pub open spec fn skip_ws(s: Seq<char>, pos: int) -> int
    decreases s.len() - pos,
{
    if pos < 0 || pos >= s.len() || !is_ws(s[pos]) { pos } else { skip_ws(s, pos + 1) }
}

/// `lit` stands at `pos`.
pub open spec fn starts_at(s: Seq<char>, pos: int, lit: Seq<char>) -> bool {
    0 <= pos && pos + lit.len() <= s.len() && s.subrange(pos, pos + lit.len()) == lit
}

/// The first position from `pos` on where `lit` stands.
pub open spec fn find_from(s: Seq<char>, pos: int, lit: Seq<char>) -> Option<int>
    decreases s.len() - pos,
{
    if pos < 0 || pos >= s.len() || pos + lit.len() > s.len() {
        None
    } else if starts_at(s, pos, lit) {
        Some(pos)
    } else {
        find_from(s, pos + 1, lit)
    }
}

/// Skips whitespace, `<?...?>` declarations and `<!--...-->` comments; `None`
/// at the end of the text or in an unterminated declaration or comment.
pub open spec fn skip_prolog(s: Seq<char>, pos: int) -> Option<int>
    decreases s.len() - pos,
{
    let t = skip_ws(s, pos);
    if pos < 0 || t < pos || t >= s.len() {
        None
    } else if starts_at(s, t, seq!['<', '?']) {
        match find_from(s, t, seq!['?', '>']) {
            None => None,
            Some(e) => if t <= e && e + 2 <= s.len() { skip_prolog(s, e + 2) } else { None },
        }
    } else if starts_at(s, t, seq!['<', '!', '-', '-']) {
        match find_from(s, t, seq!['-', '-', '>']) {
            None => None,
            Some(e) => if t <= e && e + 3 <= s.len() { skip_prolog(s, e + 3) } else { None },
        }
    } else {
        Some(t)
    }
}

/// The end of the word that starts at `pos`: the first whitespace or `end`.
pub open spec fn word_end(s: Seq<char>, pos: int, end: int) -> int
    decreases end - pos,
{
    if pos >= end || pos < 0 || pos >= s.len() || is_ws(s[pos]) { pos } else { word_end(s, pos + 1, end) }
}

/// The first whitespace-separated word of `s[from..to]`.
pub open spec fn first_word(s: Seq<char>, from: int, to: int) -> Option<Seq<char>> {
    let start = skip_ws(s.subrange(0, to), from);
    if start >= to {
        None
    } else {
        Some(s.subrange(start, word_end(s, start, to)))
    }
}

/// The start of the trailing run of `/` in `s[from..to]`.
pub open spec fn trim_slashes(s: Seq<char>, from: int, to: int) -> int
    decreases to - from,
{
    if to <= from || to - 1 < 0 || to - 1 >= s.len() || s[to - 1] != '/' { to } else { trim_slashes(s, from, to - 1) }
}

/// The element that starts at `pos` and the position after it.
pub open spec fn parse_element(s: Seq<char>, pos: int) -> Option<(XmlNode, int)>
    decreases s.len() - pos, 0int,
{
    if pos < 0 || pos > s.len() || !starts_at(s, pos, seq!['<']) {
        None
    } else {
        match find_from(s, pos, seq!['>']) {
            None => None,
            Some(close) => {
                if close < pos || close >= s.len() {
                    None
                } else if close - 1 >= pos + 1 && s[close - 1] == '/' {
                    match first_word(s, pos + 1, trim_slashes(s, pos + 1, close)) {
                        None => None,
                        Some(name) => Some(
                            (XmlNode { name, text: Seq::empty(), children: Seq::empty() }, close + 1),
                        ),
                    }
                } else {
                    match first_word(s, pos + 1, close) {
                        None => None,
                        Some(name) => parse_content(s, close + 1, name, Seq::empty(), Seq::empty()),
                    }
                }
            },
        }
    }
}

/// The rest of an element named `name` from `pos` on, with the text and the
/// children read so far: text, child elements and comments up to the closing tag.
pub open spec fn parse_content(
    s: Seq<char>,
    pos: int,
    name: Seq<char>,
    text: Seq<char>,
    children: Seq<XmlNode>,
) -> Option<(XmlNode, int)>
    decreases s.len() - pos, 1int,
{
    if pos < 0 || pos > s.len() {
        None
    } else {
        match skip_prolog(s, pos) {
            None => None,
            Some(r) => {
                if r < pos || r >= s.len() {
                    None
                } else if starts_at(s, r, seq!['<', '/']) {
                    match find_from(s, r, seq!['>']) {
                        None => None,
                        Some(end) => Some((XmlNode { name, text, children }, end + 1)),
                    }
                } else if starts_at(s, r, seq!['<']) {
                    match parse_element(s, r) {
                        None => None,
                        Some((child, after)) => if r < after <= s.len() {
                            parse_content(s, after, name, text, children.push(child))
                        } else {
                            None
                        },
                    }
                } else {
                    match find_from(s, r, seq!['<']) {
                        None => None,
                        Some(next) => if r < next <= s.len() {
                            parse_content(s, next, name, text + s.subrange(r, next), children)
                        } else {
                            None
                        },
                    }
                }
            },
        }
    }
}

/// The top-level elements from `pos` on, after those read so far; `None` for
/// text outside an element, a broken element, or no element at all.
pub open spec fn parse_roots(s: Seq<char>, pos: int, roots: Seq<XmlNode>) -> Option<Seq<XmlNode>>
    decreases s.len() - pos,
{
    match skip_prolog(s, pos) {
        None => if roots.len() == 0 { None } else { Some(roots) },
        Some(t) => {
            if t < 0 || t >= s.len() || s[t] != '<' {
                None
            } else {
                match parse_element(s, t) {
                    None => None,
                    Some((e, after)) => if pos < after <= s.len() && t < after {
                        parse_roots(s, after, roots.push(e))
                    } else {
                        None
                    },
                }
            }
        },
    }
}

/// The start of `s` without surrounding whitespace.
pub open spec fn trim_start_pos(s: Seq<char>) -> int {
    skip_ws(s, 0)
}

/// The end of `s` without trailing whitespace, not before `from`.
pub open spec fn trim_end_pos(s: Seq<char>, from: int, to: int) -> int
    decreases to - from,
{
    if to <= from || to - 1 < 0 || to - 1 >= s.len() || !is_ws(s[to - 1]) { to } else { trim_end_pos(s, from, to - 1) }
}

/// The leading run of digits and signs of `s[from..to]`.
pub open spec fn sign_digit_end(s: Seq<char>, from: int, to: int) -> int
    decreases to - from,
{
    if from >= to || from < 0 || from >= s.len() || !(is_digit(s[from]) || s[from] == '-' || s[from] == '+') {
        from
    } else {
        sign_digit_end(s, from + 1, to)
    }
}

/// A point's number: the text trimmed, its leading digits and signs parsed as
/// a `u32`, zero when that fails.
pub open spec fn text_u32(text: Seq<char>) -> u32 {
    let from = trim_start_pos(text);
    let to = trim_end_pos(text, from, text.len() as int);
    u32_or(spec_parse_u32(text.subrange(from, sign_digit_end(text, from, to))), 0)
}

/// The rpm, pulses, and whether pulses were seen, over the children from `i` on.
pub open spec fn item_values(children: Seq<XmlNode>, i: int, rpm: u32, pulses: u32, saw: bool) -> (u32, u32, bool)
    decreases children.len() - i,
{
    if i < 0 || i >= children.len() {
        (rpm, pulses, saw)
    } else {
        let c = children[i];
        let rpm2 = if eq_ascii_ci(c.name, TACH_ELEMENT_VALUE@) { text_u32(c.text) } else { rpm };
        let (pulses2, saw2) = if eq_ascii_ci(c.name, TACH_ELEMENT_TIME_VALUE@) {
            (text_u32(c.text), true)
        } else {
            (pulses, saw)
        };
        item_values(children, i + 1, rpm2, pulses2, saw2)
    }
}

/// The points under a node: a `SettingsItem` gives its point when it has a
/// `TimeValue`; any other node gives the points of its children, in order.
pub open spec fn node_points(node: XmlNode) -> Seq<TachPoint>
    decreases node, 0int,
{
    if eq_ascii_ci(node.name, TACH_ELEMENT_SETTINGS_ITEM@) {
        let (rpm, pulses, saw) = item_values(node.children, 0, 0, 0, false);
        if saw { seq![TachPoint { rpm, pulses }] } else { Seq::empty() }
    } else {
        nodes_points(node.children)
    }
}

/// The points under each node, in order.
pub open spec fn nodes_points(nodes: Seq<XmlNode>) -> Seq<TachPoint>
    decreases nodes, 1int,
{
    if nodes.len() == 0 {
        Seq::empty()
    } else {
        nodes_points(nodes.subrange(0, nodes.len() - 1)) + node_points(nodes[nodes.len() - 1])
    }
}

/// What `parse_tach_xml` answers for the characters of a file.
pub open spec fn spec_parse_tach_xml(s: Seq<char>) -> Result<Seq<TachPoint>, Seq<char>> {
    match parse_roots(s, 0, Seq::empty()) {
        None => Err(ERR_INVALID_XML@),
        Some(roots) => {
            let points = nodes_points(roots);
            if points.len() == 0 { Err(ERR_NO_SETTINGS@) } else { Ok(points) }
        },
    }
}


/// An XML element as the parser builds it.
struct XmlElem {
    name: Vec<char>,
    text: Vec<char>,
    children: Vec<XmlElem>,
}

spec fn node_of(e: XmlElem) -> XmlNode
    decreases e, 0int,
{
    XmlNode { name: e.name@, text: e.text@, children: nodes_of(e.children@) }
}

spec fn nodes_of(es: Seq<XmlElem>) -> Seq<XmlNode>
    decreases es, 1int,
{
    if es.len() == 0 {
        Seq::empty()
    } else {
        nodes_of(es.subrange(0, es.len() - 1)).push(node_of(es[es.len() - 1]))
    }
}

proof fn lemma_nodes_of(es: Seq<XmlElem>)
    ensures
        nodes_of(es).len() == es.len(),
        forall|i: int| 0 <= i < es.len() ==> #[trigger] nodes_of(es)[i] == node_of(es[i]),
    decreases es.len(),
{
    if es.len() > 0 {
        let init = es.subrange(0, es.len() - 1);
        lemma_nodes_of(init);
        assert forall|i: int| 0 <= i < es.len() implies #[trigger] nodes_of(es)[i] == node_of(es[i]) by {
            if i < es.len() - 1 {
                assert(init[i] == es[i]);
            }
        }
    }
}

proof fn lemma_nodes_of_push(es: Seq<XmlElem>, e: XmlElem)
    ensures
        nodes_of(es.push(e)) == nodes_of(es).push(node_of(e)),
{
    assert(es.push(e).subrange(0, es.len() as int) =~= es);
}

proof fn lemma_nodes_points_prefix(ns: Seq<XmlNode>, i: int)
    requires
        0 <= i < ns.len(),
    ensures
        nodes_points(ns.subrange(0, i + 1)) == nodes_points(ns.subrange(0, i)) + node_points(ns[i]),
{
    let next = ns.subrange(0, i + 1);
    assert(next.subrange(0, next.len() - 1) =~= ns.subrange(0, i));
}

fn is_ws_char(c: char) -> (r: bool)
    ensures
        r == is_ws(c),
{
    ('\t' <= c && c <= '\r') || c == ' ' || c == '\u{85}' || c == '\u{a0}' || c == '\u{1680}' || ('\u{2000}'
        <= c && c <= '\u{200a}') || c == '\u{2028}' || c == '\u{2029}' || c == '\u{202f}' || c == '\u{205f}'
        || c == '\u{3000}'
}

proof fn lemma_skip_ws_bounds(s: Seq<char>, pos: int)
    requires
        0 <= pos <= s.len(),
    ensures
        pos <= skip_ws(s, pos) <= s.len(),
        skip_ws(s, pos) < s.len() ==> !is_ws(s[skip_ws(s, pos)]),
    decreases s.len() - pos,
{
    if pos < s.len() && is_ws(s[pos]) {
        lemma_skip_ws_bounds(s, pos + 1);
    }
}

/// `skip_ws` over the first `to` characters.
fn skip_ws_to(s: &Vec<char>, pos: usize, to: usize) -> (r: usize)
    requires
        pos <= to <= s@.len(),
    ensures
        r as int == skip_ws(s@.subrange(0, to as int), pos as int),
        pos <= r <= to,
{
    let ghost t = s@.subrange(0, to as int);
    let mut p = pos;
    while p < to && is_ws_char(s[p])
        invariant
            pos <= p <= to <= s@.len(),
            t == s@.subrange(0, to as int),
            skip_ws(t, p as int) == skip_ws(t, pos as int),
        decreases to - p,
    {
        assert(t[p as int] == s@[p as int]);
        p += 1;
    }
    proof {
        if p < to {
            assert(t[p as int] == s@[p as int]);
        }
    }
    p
}

proof fn lemma_find_from(s: Seq<char>, pos: int, lit: Seq<char>)
    requires
        lit.len() > 0,
    ensures
        match find_from(s, pos, lit) {
            Some(e) => pos <= e && e + lit.len() <= s.len() && starts_at(s, e, lit),
            None => true,
        },
    decreases s.len() - pos,
{
    if !(pos < 0 || pos >= s.len() || pos + lit.len() > s.len()) && !starts_at(s, pos, lit) {
        lemma_find_from(s, pos + 1, lit);
    }
}

fn starts_at_exec(s: &Vec<char>, pos: usize, lit: &[char]) -> (r: bool)
    ensures
        r == starts_at(s@, pos as int, lit@),
{
    if pos > s.len() || lit.len() > s.len() - pos {
        return false;
    }
    let mut i: usize = 0;
    while i < lit.len()
        invariant
            pos + lit@.len() <= s@.len() <= usize::MAX,
            i <= lit@.len(),
            forall|j: int| 0 <= j < i ==> s@[pos + j] == lit@[j],
        decreases lit@.len() - i,
    {
        if s[pos + i] != lit[i] {
            assert(s@.subrange(pos as int, pos + lit@.len())[i as int] != lit@[i as int]);
            return false;
        }
        i += 1;
    }
    assert(s@.subrange(pos as int, pos + lit@.len()) =~= lit@);
    true
}

fn find_from_exec(s: &Vec<char>, pos: usize, lit: &[char]) -> (r: Option<usize>)
    requires
        lit@.len() > 0,
    ensures
        r matches Some(e) ==> find_from(s@, pos as int, lit@) == Some(e as int),
        r is None ==> find_from(s@, pos as int, lit@) is None,
{
    let mut p = pos;
    while p < s.len() && lit.len() <= s.len() - p
        invariant
            pos <= p,
            lit@.len() > 0,
            find_from(s@, p as int, lit@) == find_from(s@, pos as int, lit@),
        decreases s@.len() - p,
    {
        if starts_at_exec(s, p, lit) {
            return Some(p);
        }
        p += 1;
    }
    None
}

proof fn lemma_skip_prolog(s: Seq<char>, pos: int)
    ensures
        skip_prolog(s, pos) matches Some(r) ==> 0 <= pos <= r < s.len(),
    decreases s.len() - pos,
{
    let t = skip_ws(s, pos);
    if 0 <= pos <= s.len() {
        lemma_skip_ws_bounds(s, pos);
    }
    if !(pos < 0 || t < pos || t >= s.len()) {
        if starts_at(s, t, seq!['<', '?']) {
            lemma_find_from(s, t, seq!['?', '>']);
            match find_from(s, t, seq!['?', '>']) {
                None => {},
                Some(e) => {
                    if t <= e && e + 2 <= s.len() {
                        lemma_skip_prolog(s, e + 2);
                    }
                },
            }
        } else if starts_at(s, t, seq!['<', '!', '-', '-']) {
            lemma_find_from(s, t, seq!['-', '-', '>']);
            match find_from(s, t, seq!['-', '-', '>']) {
                None => {},
                Some(e) => {
                    if t <= e && e + 3 <= s.len() {
                        lemma_skip_prolog(s, e + 3);
                    }
                },
            }
        }
    }
}

fn skip_prolog_exec(s: &Vec<char>, pos: usize) -> (r: Option<usize>)
    requires
        pos <= s@.len(),
    ensures
        r matches Some(x) ==> skip_prolog(s@, pos as int) == Some(x as int) && pos <= x < s@.len(),
        r is None ==> skip_prolog(s@, pos as int) is None,
{
    let ghost goal = skip_prolog(s@, pos as int);
    proof { lemma_skip_prolog(s@, pos as int); }
    let decl_open: [char; 2] = ['<', '?'];
    let decl_close: [char; 2] = ['?', '>'];
    let note_open: [char; 4] = ['<', '!', '-', '-'];
    let note_close: [char; 3] = ['-', '-', '>'];
    assert(decl_open@ =~= seq!['<', '?']);
    assert(decl_close@ =~= seq!['?', '>']);
    assert(note_open@ =~= seq!['<', '!', '-', '-']);
    assert(note_close@ =~= seq!['-', '-', '>']);
    let mut p = pos;
    loop
        invariant
            pos <= p <= s@.len(),
            skip_prolog(s@, p as int) == goal,
            goal == skip_prolog(s@, pos as int),
            decl_open@ == seq!['<', '?'],
            decl_close@ == seq!['?', '>'],
            note_open@ == seq!['<', '!', '-', '-'],
            note_close@ == seq!['-', '-', '>'],
        decreases s@.len() - p,
    {
        let t = skip_ws_to(s, p, s.len());
        assert(s@.subrange(0, s@.len() as int) =~= s@);
        assert(t as int == skip_ws(s@, p as int));
        if t >= s.len() {
            return None;
        }
        if starts_at_exec(s, t, &decl_open) {
            proof { lemma_find_from(s@, t as int, seq!['?', '>']); }
            match find_from_exec(s, t, &decl_close) {
                None => return None,
                Some(e) => {
                    p = e + 2;
                },
            }
        } else if starts_at_exec(s, t, &note_open) {
            proof { lemma_find_from(s@, t as int, seq!['-', '-', '>']); }
            match find_from_exec(s, t, &note_close) {
                None => return None,
                Some(e) => {
                    p = e + 3;
                },
            }
        } else {
            proof { lemma_skip_prolog(s@, p as int); }
            return Some(t);
        }
    }
}


fn copy_range(s: &Vec<char>, from: usize, to: usize) -> (r: Vec<char>)
    requires
        from <= to <= s@.len(),
    ensures
        r@ == s@.subrange(from as int, to as int),
{
    let mut r: Vec<char> = Vec::new();
    let mut i = from;
    while i < to
        invariant
            from <= i <= to <= s@.len(),
            r@ == s@.subrange(from as int, i as int),
        decreases to - i,
    {
        r.push(s[i]);
        i += 1;
        assert(r@ =~= s@.subrange(from as int, i as int));
    }
    r
}

fn append_range(text: &mut Vec<char>, s: &Vec<char>, from: usize, to: usize)
    requires
        from <= to <= s@.len(),
    ensures
        final(text)@ == old(text)@ + s@.subrange(from as int, to as int),
{
    let mut i = from;
    while i < to
        invariant
            from <= i <= to <= s@.len(),
            text@ == old(text)@ + s@.subrange(from as int, i as int),
        decreases to - i,
    {
        text.push(s[i]);
        i += 1;
        assert(text@ =~= old(text)@ + s@.subrange(from as int, i as int));
    }
}

fn word_end_exec(s: &Vec<char>, pos: usize, end: usize) -> (r: usize)
    requires
        pos <= end <= s@.len(),
    ensures
        r as int == word_end(s@, pos as int, end as int),
        pos <= r <= end,
{
    let mut p = pos;
    while p < end && !is_ws_char(s[p])
        invariant
            pos <= p <= end <= s@.len(),
            word_end(s@, p as int, end as int) == word_end(s@, pos as int, end as int),
        decreases end - p,
    {
        p += 1;
    }
    p
}

fn trim_slashes_exec(s: &Vec<char>, from: usize, to: usize) -> (r: usize)
    requires
        from <= to <= s@.len(),
    ensures
        r as int == trim_slashes(s@, from as int, to as int),
        from <= r <= to,
{
    let mut t = to;
    while t > from && s[t - 1] == '/'
        invariant
            from <= t <= to <= s@.len(),
            trim_slashes(s@, from as int, t as int) == trim_slashes(s@, from as int, to as int),
        decreases t,
    {
        t -= 1;
    }
    t
}

fn first_word_exec(s: &Vec<char>, from: usize, to: usize) -> (r: Option<Vec<char>>)
    requires
        from <= to <= s@.len(),
    ensures
        match r {
            Some(w) => first_word(s@, from as int, to as int) == Some(w@),
            None => first_word(s@, from as int, to as int) is None,
        },
{
    let start = skip_ws_to(s, from, to);
    if start >= to {
        return None;
    }
    let end = word_end_exec(s, start, to);
    Some(copy_range(s, start, end))
}

proof fn lemma_find_gt(s: Seq<char>, r: int, c: char)
    requires
        0 <= r < s.len(),
        s[r] != c,
    ensures
        find_from(s, r, seq![c]) matches Some(e) ==> r < e,
{
    lemma_find_from(s, r, seq![c]);
    if find_from(s, r, seq![c]) == Some(r) {
        assert(s.subrange(r, r + 1)[0] == s[r]);
    }
}

fn parse_element_exec(s: &Vec<char>, pos: usize) -> (r: Option<(XmlElem, usize)>)
    requires
        pos <= s@.len(),
    ensures
        match r {
            Some((e, after)) => parse_element(s@, pos as int) == Some((node_of(e), after as int)) && pos < after
                <= s@.len(),
            None => parse_element(s@, pos as int) is None,
        },
    decreases s@.len() - pos,
{
    let n = s.len();
    let lt: [char; 1] = ['<'];
    let gt: [char; 1] = ['>'];
    let lt_slash: [char; 2] = ['<', '/'];
    assert(lt@ =~= seq!['<']);
    assert(gt@ =~= seq!['>']);
    assert(lt_slash@ =~= seq!['<', '/']);
    if !starts_at_exec(s, pos, &lt) {
        return None;
    }
    proof { lemma_find_from(s@, pos as int, seq!['>']); }
    let close = match find_from_exec(s, pos, &gt) {
        None => return None,
        Some(c) => c,
    };
    assert(s@[pos as int] == '<') by {
        assert(s@.subrange(pos as int, pos + 1)[0] == s@[pos as int]);
    }
    assert(close > pos) by {
        if close == pos {
            assert(s@.subrange(close as int, close + 1)[0] == s@[close as int]);
        }
    }
    if close >= 1 && close - 1 >= pos + 1 && s[close - 1] == '/' {
        let end = trim_slashes_exec(s, pos + 1, close);
        return match first_word_exec(s, pos + 1, end) {
            None => None,
            Some(name) => Some((XmlElem { name, text: Vec::new(), children: Vec::new() }, close + 1)),
        };
    }
    let name = match first_word_exec(s, pos + 1, close) {
        None => return None,
        Some(w) => w,
    };
    let ghost goal = parse_element(s@, pos as int);
    assert(goal == parse_content(s@, close + 1, name@, Seq::empty(), Seq::empty()));
    let mut rest = close + 1;
    let mut text: Vec<char> = Vec::new();
    let mut children: Vec<XmlElem> = Vec::new();
    proof { lemma_nodes_of(children@); }
    assert(nodes_of(children@) =~= Seq::<XmlNode>::empty());
    loop
        invariant
            pos < rest <= s@.len(),
            n == s@.len(),
            goal == parse_element(s@, pos as int),
            parse_content(s@, rest as int, name@, text@, nodes_of(children@)) == goal,
            lt@ == seq!['<'],
            gt@ == seq!['>'],
            lt_slash@ == seq!['<', '/'],
        decreases s@.len() - rest,
    {
        let r = match skip_prolog_exec(s, rest) {
            None => return None,
            Some(r) => r,
        };
        if starts_at_exec(s, r, &lt_slash) {
            proof { lemma_find_from(s@, r as int, seq!['>']); }
            let end = match find_from_exec(s, r, &gt) {
                None => return None,
                Some(e) => e,
            };
            return Some((XmlElem { name, text, children }, end + 1));
        }
        if starts_at_exec(s, r, &lt) {
            let (child, after) = match parse_element_exec(s, r) {
                None => return None,
                Some(x) => x,
            };
            proof { lemma_nodes_of_push(children@, child); }
            children.push(child);
            rest = after;
        } else {
            proof {
                assert(s@[r as int] != '<') by {
                    if s@[r as int] == '<' {
                        assert(s@.subrange(r as int, r + 1) =~= seq!['<']);
                    }
                }
                lemma_find_gt(s@, r as int, '<');
                lemma_find_from(s@, r as int, seq!['<']);
            }
            let next = match find_from_exec(s, r, &lt) {
                None => return None,
                Some(n) => n,
            };
            append_range(&mut text, s, r, next);
            rest = next;
        }
    }
}

fn parse_roots_exec(s: &Vec<char>) -> (r: Option<Vec<XmlElem>>)
    ensures
        match r {
            Some(roots) => parse_roots(s@, 0, Seq::empty()) == Some(nodes_of(roots@)),
            None => parse_roots(s@, 0, Seq::empty()) is None,
        },
{
    let ghost goal = parse_roots(s@, 0, Seq::empty());
    let mut roots: Vec<XmlElem> = Vec::new();
    proof { lemma_nodes_of(roots@); }
    assert(nodes_of(roots@) =~= Seq::<XmlNode>::empty());
    let mut pos: usize = 0;
    loop
        invariant
            pos <= s@.len(),
            goal == parse_roots(s@, 0, Seq::empty()),
            parse_roots(s@, pos as int, nodes_of(roots@)) == goal,
        decreases s@.len() - pos,
    {
        let t = match skip_prolog_exec(s, pos) {
            None => {
                proof { lemma_nodes_of(roots@); }
                if roots.len() == 0 {
                    return None;
                }
                return Some(roots);
            },
            Some(t) => t,
        };
        if s[t] != '<' {
            return None;
        }
        let (e, after) = match parse_element_exec(s, t) {
            None => return None,
            Some(x) => x,
        };
        proof { lemma_nodes_of_push(roots@, e); }
        roots.push(e);
        pos = after;
    }
}

fn to_chars(src: &str) -> (v: Vec<char>)
    ensures
        v@ == src@,
{
    let mut v: Vec<char> = Vec::new();
    let n = src.unicode_len();
    let mut i: usize = 0;
    while i < n
        invariant
            n == src@.len(),
            i <= n,
            v@ == src@.subrange(0, i as int),
        decreases n - i,
    {
        v.push(src.get_char(i));
        i += 1;
        assert(v@ =~= src@.subrange(0, i as int));
    }
    assert(src@.subrange(0, n as int) =~= src@);
    v
}


fn chars_eq_ci(a: &Vec<char>, b: &str) -> (r: bool)
    ensures
        r == eq_ascii_ci(a@, b@),
{
    let n = b.unicode_len();
    if a.len() != n {
        return false;
    }
    let mut i: usize = 0;
    while i < n
        invariant
            n == a@.len() == b@.len(),
            i <= n,
            forall|j: int| 0 <= j < i ==> #[trigger] lower_char(a@[j]) == lower_char(b@[j]),
        decreases n - i,
    {
        if lower_ascii(a[i]) != lower_ascii(b.get_char(i)) {
            assert(!eq_ascii_ci(a@, b@)) by {
                assert(lower_char(a@[i as int]) != lower_char(b@[i as int]));
            }
            return false;
        }
        i += 1;
    }
    true
}

fn trim_end_exec(s: &Vec<char>, from: usize, to: usize) -> (r: usize)
    requires
        from <= to <= s@.len(),
    ensures
        r as int == trim_end_pos(s@, from as int, to as int),
        from <= r <= to,
{
    let mut t = to;
    while t > from && is_ws_char(s[t - 1])
        invariant
            from <= t <= to <= s@.len(),
            trim_end_pos(s@, from as int, t as int) == trim_end_pos(s@, from as int, to as int),
        decreases t,
    {
        t -= 1;
    }
    t
}

fn sign_digit_end_exec(s: &Vec<char>, from: usize, to: usize) -> (r: usize)
    requires
        from <= to <= s@.len(),
    ensures
        r as int == sign_digit_end(s@, from as int, to as int),
        from <= r <= to,
{
    let mut p = from;
    while p < to && (('0' <= s[p] && s[p] <= '9') || s[p] == '-' || s[p] == '+')
        invariant
            from <= p <= to <= s@.len(),
            sign_digit_end(s@, p as int, to as int) == sign_digit_end(s@, from as int, to as int),
        decreases to - p,
    {
        p += 1;
    }
    p
}

/// The digits of `s[start..to]` as in `take_digits`, over a character vector.
fn digits_value_capped(s: &Vec<char>, start: usize, to: usize) -> (r: Option<u64>)
    requires
        start <= to <= s@.len(),
    ensures
        match r {
            None => to == start || !all_digits(s@.subrange(start as int, to as int)),
            Some(v) => to > start && all_digits(s@.subrange(start as int, to as int)) && v == (
            if digits_value(s@.subrange(start as int, to as int)) >= DIGITS_CAP {
                DIGITS_CAP as int
            } else {
                digits_value(s@.subrange(start as int, to as int))
            }),
        },
{
    if to == start {
        return None;
    }
    let mut value: u64 = 0;
    let mut i: usize = start;
    while i < to
        invariant
            start <= i <= to <= s@.len(),
            all_digits(s@.subrange(start as int, i as int)),
            value == (if digits_value(s@.subrange(start as int, i as int)) >= DIGITS_CAP {
                DIGITS_CAP as int
            } else {
                digits_value(s@.subrange(start as int, i as int))
            }),
        decreases to - i,
    {
        let c = s[i];
        if !('0' <= c && c <= '9') {
            assert(!all_digits(s@.subrange(start as int, to as int))) by {
                let sub = s@.subrange(start as int, to as int);
                assert(sub[i - start] == c);
                assert(!is_digit(sub[i - start]));
            }
            return None;
        }
        let d = (c as u32 - '0' as u32) as u64;
        proof {
            let pre = s@.subrange(start as int, i as int);
            let next = s@.subrange(start as int, i as int + 1);
            assert(next.drop_last() =~= pre);
            assert(next.last() == c);
            assert(all_digits(next)) by {
                assert forall|j: int| 0 <= j < next.len() implies #[trigger] is_digit(next[j]) by {
                    if j < pre.len() {
                        assert(next[j] == pre[j]);
                    }
                }
            }
            lemma_digits_nonneg(pre);
            assert(digits_value(next) == digits_value(pre) * 10 + d);
        }
        value = if value >= DIGITS_CAP {
            DIGITS_CAP
        } else {
            let v = value * 10 + d;
            if v >= DIGITS_CAP { DIGITS_CAP } else { v }
        };
        i += 1;
    }
    Some(value)
}

fn parse_u32_range(s: &Vec<char>, from: usize, to: usize) -> (r: Option<u32>)
    requires
        from <= to <= s@.len(),
    ensures
        r == spec_parse_u32(s@.subrange(from as int, to as int)),
{
    let ghost t = s@.subrange(from as int, to as int);
    let mut start = from;
    if from < to && s[from] == '+' {
        start = from + 1;
    }
    proof {
        if t.len() > 0 && t[0] == '+' {
            assert(s@.subrange(start as int, to as int) =~= t.drop_first());
        } else {
            assert(s@.subrange(start as int, to as int) =~= t);
        }
    }
    match digits_value_capped(s, start, to) {
        None => None,
        Some(v) => {
            proof { lemma_digits_nonneg(s@.subrange(start as int, to as int)); }
            if v <= 4_294_967_295 {
                Some(v as u32)
            } else {
                None
            }
        },
    }
}

fn text_u32_exec(text: &Vec<char>) -> (r: u32)
    ensures
        r == text_u32(text@),
{
    let from = skip_ws_to(text, 0, text.len());
    assert(text@.subrange(0, text@.len() as int) =~= text@);
    let to = trim_end_exec(text, from, text.len());
    let end = sign_digit_end_exec(text, from, to);
    match parse_u32_range(text, from, end) {
        Some(v) => v,
        None => 0,
    }
}

fn collect_settings(node: &XmlElem, points: &mut Vec<TachPoint>)
    ensures
        final(points)@ == old(points)@ + node_points(node_of(*node)),
    decreases node,
{
    let ghost ns = nodes_of(node.children@);
    proof { lemma_nodes_of(node.children@); }
    if chars_eq_ci(&node.name, TACH_ELEMENT_SETTINGS_ITEM) {
        let mut rpm: u32 = 0;
        let mut pulses: u32 = 0;
        let mut saw = false;
        let mut i: usize = 0;
        while i < node.children.len()
            invariant
                ns == nodes_of(node.children@),
                ns.len() == node.children@.len(),
                forall|k: int| 0 <= k < ns.len() ==> #[trigger] ns[k] == node_of(node.children@[k]),
                i <= node.children@.len(),
                item_values(ns, i as int, rpm, pulses, saw) == item_values(ns, 0, 0, 0, false),
            decreases node.children@.len() - i,
        {
            let child = &node.children[i];
            assert(ns[i as int] == node_of(*child));
            if chars_eq_ci(&child.name, TACH_ELEMENT_VALUE) {
                rpm = text_u32_exec(&child.text);
            }
            if chars_eq_ci(&child.name, TACH_ELEMENT_TIME_VALUE) {
                pulses = text_u32_exec(&child.text);
                saw = true;
            }
            i += 1;
        }
        if saw {
            points.push(TachPoint { rpm, pulses });
        }
        return;
    }
    let mut i: usize = 0;
    while i < node.children.len()
        invariant
            ns == nodes_of(node.children@),
            ns.len() == node.children@.len(),
            forall|k: int| 0 <= k < ns.len() ==> #[trigger] ns[k] == node_of(node.children@[k]),
            i <= node.children@.len(),
            points@ == old(points)@ + nodes_points(ns.subrange(0, i as int)),
        decreases node.children@.len() - i,
    {
        let child = &node.children[i];
        proof { lemma_nodes_points_prefix(ns, i as int); }
        collect_settings(child, points);
        i += 1;
        assert(points@ =~= old(points)@ + nodes_points(ns.subrange(0, i as int)));
    }
    assert(ns.subrange(0, ns.len() as int) =~= ns);
}

/// Reads the calibration points of a RevBurner XML file: every `SettingsItem`
/// with a `TimeValue`, in document order, its `Value` as the rpm.
pub fn parse_tach_xml(src: &str) -> (r: Result<Vec<TachPoint>, &'static str>)
    ensures
        match (r, spec_parse_tach_xml(src@)) {
            (Ok(points), Ok(expected)) => points@ == expected,
            (Err(e), Err(expected)) => e@ == expected,
            _ => false,
        },
{
    let chars = to_chars(src);
    let roots = match parse_roots_exec(&chars) {
        None => return Err(ERR_INVALID_XML),
        Some(roots) => roots,
    };
    let ghost ns = nodes_of(roots@);
    proof { lemma_nodes_of(roots@); }
    let mut points: Vec<TachPoint> = Vec::new();
    let mut i: usize = 0;
    while i < roots.len()
        invariant
            ns == nodes_of(roots@),
            ns.len() == roots@.len(),
            forall|k: int| 0 <= k < ns.len() ==> #[trigger] ns[k] == node_of(roots@[k]),
            i <= roots@.len(),
            points@ == nodes_points(ns.subrange(0, i as int)),
        decreases roots@.len() - i,
    {
        proof { lemma_nodes_points_prefix(ns, i as int); }
        collect_settings(&roots[i], &mut points);
        i += 1;
    }
    assert(ns.subrange(0, ns.len() as int) =~= ns);
    if points.len() == 0 {
        return Err(ERR_NO_SETTINGS);
    }
    Ok(points)
}


pub const MIN_REVS: u32 = 2000;
pub const BASE_INCREMENT: u32 = 1000;
pub const GRANULARITY_FINE: u32 = 2;
pub const GRANULARITY_FINEST: u32 = 4;
pub const FINE_INCREMENT: u32 = 500;
pub const FINEST_INCREMENT: u32 = 250;
pub const FIRST_PULSE_COARSE: u32 = 250;
pub const MIN_REVS_MESSAGE: &'static str = "revs must be at least 2000";

/// A calibrated wizard node: the rpm shown and the pulses measured for it.
#[derive(Clone, Copy, Debug, PartialEq, Eq, Structural)]
pub struct TachNode {
    pub rpm: u32,
    pub pulses: u32,
}

/// The rpm step between wizard nodes: 500 at granularity 2, 250 from 4 on, else 1000.
pub open spec fn increment_of(granularity: u32) -> int {
    if granularity == GRANULARITY_FINE {
        FINE_INCREMENT as int
    } else if granularity >= GRANULARITY_FINEST {
        FINEST_INCREMENT as int
    } else {
        BASE_INCREMENT as int
    }
}

/// How many wizard nodes: one per `1000 / granularity` rpm, plus one below
/// granularity 4.
pub open spec fn node_count(max_revs: u32, granularity: u32) -> int {
    let n = (max_revs / BASE_INCREMENT) as int * granularity as int + 1;
    if granularity >= GRANULARITY_FINEST { n - 1 } else { n }
}

/// Wizard node `i`: from granularity 4 on, `(i + 1)` steps; below it, 250 rpm
/// first and then `i` steps.
pub open spec fn target_at(granularity: u32, i: int) -> int {
    if granularity >= GRANULARITY_FINEST {
        (i + 1) * increment_of(granularity)
    } else if i == 0 {
        FIRST_PULSE_COARSE as int
    } else {
        i * increment_of(granularity)
    }
}

/// The nodes and the largest target fit in `u32`.
pub open spec fn targets_fit(max_revs: u32, granularity: u32) -> bool {
    &&& (max_revs / BASE_INCREMENT) as int * granularity as int + 1 <= u32::MAX
    &&& node_count(max_revs, granularity) * increment_of(granularity) <= u32::MAX
}

fn increment_for(granularity: u32) -> (r: u32)
    ensures
        r == increment_of(granularity),
{
    if granularity == GRANULARITY_FINE {
        return FINE_INCREMENT;
    }
    if granularity >= GRANULARITY_FINEST {
        return FINEST_INCREMENT;
    }
    BASE_INCREMENT
}

/// The rpm targets the wizard asks pulses for; `None` below 2000 rpm.
pub fn rpm_targets(max_revs: u32, granularity: u32) -> (r: Option<Vec<u32>>)
    requires
        max_revs >= MIN_REVS ==> targets_fit(max_revs, granularity),
    ensures
        max_revs < MIN_REVS ==> r is None,
        max_revs >= MIN_REVS ==> (r matches Some(v) && v@.len() == node_count(max_revs, granularity) && forall|
            i: int,
        | 0 <= i < v@.len() ==> #[trigger] v@[i] == target_at(granularity, i)),
{
    if max_revs < MIN_REVS {
        return None;
    }
    let increment = increment_for(granularity);
    let mut nodes = ((max_revs / BASE_INCREMENT) * granularity) + 1;
    if granularity >= GRANULARITY_FINEST {
        nodes = if nodes > 0 { nodes - 1 } else { 0 };
    }
    assert(nodes >= 1) by (nonlinear_arith)
        requires
            max_revs >= 2000,
            nodes == (if granularity >= 4 { (max_revs / 1000) * granularity } else { (max_revs / 1000) * granularity + 1 }),
    ;
    let mut values: Vec<u32> = Vec::new();
    let mut i: u32 = 0;
    while i < nodes
        invariant
            1 <= nodes,
            nodes as int == node_count(max_revs, granularity),
            node_count(max_revs, granularity) * increment_of(granularity) <= u32::MAX,
            increment == increment_of(granularity),
            i <= nodes,
            values@.len() == i,
            forall|k: int| 0 <= k < i ==> #[trigger] values@[k] == target_at(granularity, k),
        decreases nodes - i,
    {
        let v = if granularity >= GRANULARITY_FINEST {
            assert((i as int + 1) * increment <= nodes as int * increment) by (nonlinear_arith)
                requires
                    i < nodes,
            ;
            (i + 1) * increment
        } else if i == 0 {
            FIRST_PULSE_COARSE
        } else {
            assert(i as int * increment <= nodes as int * increment) by (nonlinear_arith)
                requires
                    i < nodes,
            ;
            i * increment
        };
        values.push(v);
        i += 1;
    }
    Some(values)
}

/// The message for too few revs.
pub fn min_revs_message() -> (r: &'static str)
    ensures
        r@ == MIN_REVS_MESSAGE@,
{
    MIN_REVS_MESSAGE
}

/// The XML of one wizard node.
pub open spec fn xml_item(node: TachNode) -> Seq<char> {
    "    <SettingsItem>\n      <Value>"@ + dec(node.rpm as nat) + "</Value>\n      <TimeValue>"@ + dec(
        node.pulses as nat,
    ) + "</TimeValue>\n    </SettingsItem>\n"@
}

/// The XML of the wizard nodes, in order.
pub open spec fn xml_items(nodes: Seq<TachNode>) -> Seq<char>
    decreases nodes.len(),
{
    if nodes.len() == 0 {
        Seq::empty()
    } else {
        xml_items(nodes.drop_last()) + xml_item(nodes.last())
    }
}

/// The head of the file.
pub open spec fn xml_head() -> Seq<char> {
    "<?xml version=\"1.0\" encoding=\"UTF-8\"?>\n<TachometerSettings>\n  <SettingsValues>\n"@
}

/// The tail of the file, with the display maximum.
pub open spec fn xml_tail(max_revs: u32) -> Seq<char> {
    "  </SettingsValues>\n  <MaxDisplayValue>"@ + dec(max_revs as nat) + "</MaxDisplayValue>\n</TachometerSettings>\n"@
}

/// The RevBurner XML file for the calibrated nodes.
pub fn write_xml(max_revs: u32, nodes: &[TachNode]) -> (s: String)
    ensures
        s@ == xml_head() + xml_items(nodes@) + xml_tail(max_revs),
{
    let mut body = string_of("<?xml version=\"1.0\" encoding=\"UTF-8\"?>\n<TachometerSettings>\n  <SettingsValues>\n");
    let mut i: usize = 0;
    while i < nodes.len()
        invariant
            i <= nodes@.len(),
            body@ == xml_head() + xml_items(nodes@.subrange(0, i as int)),
        decreases nodes@.len() - i,
    {
        let node = nodes[i];
        push_str(&mut body, "    <SettingsItem>\n      <Value>");
        push_u64(&mut body, node.rpm as u64);
        push_str(&mut body, "</Value>\n      <TimeValue>");
        push_u64(&mut body, node.pulses as u64);
        push_str(&mut body, "</TimeValue>\n    </SettingsItem>\n");
        proof {
            let next = nodes@.subrange(0, i as int + 1);
            assert(next.drop_last() =~= nodes@.subrange(0, i as int));
        }
        i += 1;
        assert(body@ =~= xml_head() + xml_items(nodes@.subrange(0, i as int)));
    }
    assert(nodes@.subrange(0, nodes@.len() as int) =~= nodes@);
    push_str(&mut body, "  </SettingsValues>\n  <MaxDisplayValue>");
    push_u64(&mut body, max_revs as u64);
    push_str(&mut body, "</MaxDisplayValue>\n</TachometerSettings>\n");
    assert(body@ =~= xml_head() + xml_items(nodes@) + xml_tail(max_revs));
    body
}

} // verus!
