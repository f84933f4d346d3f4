//! What the tachometer wizard writes is what the XML reader reads back.
use vstd::prelude::*;
use crate::tach::{
    find_from, first_word, is_ws, parse_content, parse_element, skip_prolog, skip_ws, starts_at, word_end,
    xml_head, xml_item, xml_items, xml_tail, parse_roots, spec_parse_tach_xml, TachNode, XmlNode, ERR_NO_SETTINGS, TACH_ELEMENT_SETTINGS_ITEM, TACH_ELEMENT_TIME_VALUE, TACH_ELEMENT_VALUE,
};
use crate::text::{dec, digit_char, eq_ascii_ci};
use crate::cli::{all_digits, digits_value, spec_accepted_granularity, spec_parse_u32};
use crate::tach::{increment_of, node_count, target_at, MIN_REVS};
use crate::tach::{item_values, node_points, nodes_points, sign_digit_end, text_u32, trim_end_pos, TachPoint};

verus! {

/// A tag name the reader takes whole: not empty, and no whitespace, `<`,
/// `>`, `/`, `?` or `!` in it.
pub open spec fn plain_name(name: Seq<char>) -> bool {
    &&& name.len() > 0
    &&& forall|i: int| 0 <= i < name.len() ==> {
        let c = #[trigger] name[i];
        !is_ws(c) && c != '<' && c != '>' && c != '/' && c != '?' && c != '!'
    }
}

/// `<name>text</name>`.
pub open spec fn leaf_xml(name: Seq<char>, text: Seq<char>) -> Seq<char> {
    seq!['<'] + name + seq!['>'] + text + seq!['<', '/'] + name + seq!['>']
}

/// Text that is nothing but decimal digits, at least one.
pub open spec fn digit_text(t: Seq<char>) -> bool {
    t.len() > 0 && forall|i: int| 0 <= i < t.len() ==> '0' <= #[trigger] t[i] <= '9'
}

proof fn lemma_skip_ws_run(s: Seq<char>, p: int, q: int)
    requires
        0 <= p <= q <= s.len(),
        forall|k: int| p <= k < q ==> is_ws(#[trigger] s[k]),
        q < s.len() ==> !is_ws(s[q]),
    ensures
        skip_ws(s, p) == q,
    decreases q - p,
{
    if p < q {
        lemma_skip_ws_run(s, p + 1, q);
    }
}

proof fn lemma_word_end_run(s: Seq<char>, p: int, q: int)
    requires
        0 <= p <= q <= s.len(),
        forall|k: int| p <= k < q ==> !is_ws(#[trigger] s[k]),
    ensures
        word_end(s, p, q) == q,
    decreases q - p,
{
    if p < q {
        lemma_word_end_run(s, p + 1, q);
    }
}

proof fn lemma_find_first(s: Seq<char>, p: int, q: int, lit: Seq<char>)
    requires
        0 <= p <= q,
        lit.len() > 0,
        starts_at(s, q, lit),
        forall|k: int| p <= k < q ==> !#[trigger] starts_at(s, k, lit),
    ensures
        find_from(s, p, lit) == Some(q),
    decreases q - p,
{
    if p < q {
        lemma_find_first(s, p + 1, q, lit);
    }
}

/// The first `c` from `p` on is at `q`.
proof fn lemma_find_char(s: Seq<char>, p: int, q: int, c: char)
    requires
        0 <= p <= q < s.len(),
        s[q] == c,
        forall|k: int| p <= k < q ==> #[trigger] s[k] != c,
    ensures
        find_from(s, p, seq![c]) == Some(q),
{
    assert(s.subrange(q, q + 1) =~= seq![c]);
    assert forall|k: int| p <= k < q implies !#[trigger] starts_at(s, k, seq![c]) by {
        if starts_at(s, k, seq![c]) {
            assert(s.subrange(k, k + 1)[0] == s[k]);
        }
    }
    lemma_find_first(s, p, q, seq![c]);
}

/// An opening tag: the element's content is read from just after it.
proof fn lemma_open_tag(s: Seq<char>, p: int, name: Seq<char>)
    requires
        0 <= p,
        p + name.len() + 2 <= s.len(),
        plain_name(name),
        s.subrange(p, p + name.len() + 2) == seq!['<'] + name + seq!['>'],
    ensures
        parse_element(s, p) == parse_content(s, p + name.len() + 2, name, Seq::empty(), Seq::empty()),
{
    let close = p + name.len() + 1;
    assert(s[p] == '<') by {
        assert(s.subrange(p, p + name.len() + 2)[0] == s[p]);
    }
    assert forall|k: int| p + 1 <= k < close implies #[trigger] s[k] == name[k - p - 1] by {
        assert(s.subrange(p, p + name.len() + 2)[k - p] == s[k]);
    }
    assert(s[close] == '>') by {
        assert(s.subrange(p, p + name.len() + 2)[close - p] == s[close]);
    }
    assert(s.subrange(p, p + 1) =~= seq!['<']);
    assert(starts_at(s, p, seq!['<']));
    assert forall|k: int| p <= k < close implies #[trigger] s[k] != '>' by {
        if k > p {
            assert(s[k] == name[k - p - 1]);
        }
    }
    lemma_find_char(s, p, close, '>');
    assert(s[close - 1] == name[name.len() - 1]);
    let sub = s.subrange(0, close);
    assert forall|k: int| p + 1 <= k < close implies !is_ws(#[trigger] s[k]) by {
        assert(s[k] == name[k - p - 1]);
    }
    lemma_skip_ws_run(sub, p + 1, p + 1);
    assert(!is_ws(sub[p + 1]));
    lemma_word_end_run(s, p + 1, close);
    assert(s.subrange(p + 1, close) =~= name);
    assert(first_word(s, p + 1, close) == Some(name));
}

/// Whitespace, then a child element: the child is read and reading goes on after it.
proof fn lemma_content_child(
    s: Seq<char>,
    pos: int,
    name: Seq<char>,
    text: Seq<char>,
    children: Seq<XmlNode>,
    q: int,
    child: XmlNode,
    after: int,
)
    requires
        0 <= pos <= q,
        q + 1 < s.len(),
        forall|k: int| pos <= k < q ==> is_ws(#[trigger] s[k]),
        s[q] == '<',
        s[q + 1] != '?' && s[q + 1] != '!' && s[q + 1] != '/',
        parse_element(s, q) == Some((child, after)),
        q < after <= s.len(),
    ensures
        parse_content(s, pos, name, text, children) == parse_content(s, after, name, text, children.push(child)),
{
    lemma_skip_ws_run(s, pos, q);
    assert(!starts_at(s, q, seq!['<', '?'])) by {
        if starts_at(s, q, seq!['<', '?']) {
            assert(s.subrange(q, q + 2)[1] == s[q + 1]);
        }
    }
    assert(!starts_at(s, q, seq!['<', '!', '-', '-'])) by {
        if starts_at(s, q, seq!['<', '!', '-', '-']) {
            assert(s.subrange(q, q + 4)[1] == s[q + 1]);
        }
    }
    assert(skip_prolog(s, pos) == Some(q));
    assert(!starts_at(s, q, seq!['<', '/'])) by {
        if starts_at(s, q, seq!['<', '/']) {
            assert(s.subrange(q, q + 2)[1] == s[q + 1]);
        }
    }
    assert(s.subrange(q, q + 1) =~= seq!['<']);
}

/// Text up to the next `<` is added to the element's text.
proof fn lemma_content_text(
    s: Seq<char>,
    pos: int,
    name: Seq<char>,
    text: Seq<char>,
    children: Seq<XmlNode>,
    next: int,
)
    requires
        0 <= pos < next < s.len(),
        !is_ws(s[pos]),
        forall|k: int| pos <= k < next ==> #[trigger] s[k] != '<',
        s[next] == '<',
    ensures
        parse_content(s, pos, name, text, children) == parse_content(s, next, name, text + s.subrange(pos, next), children),
{
    lemma_skip_ws_run(s, pos, pos);
    assert(!starts_at(s, pos, seq!['<', '?'])) by {
        if starts_at(s, pos, seq!['<', '?']) {
            assert(s.subrange(pos, pos + 2)[0] == s[pos]);
        }
    }
    assert(!starts_at(s, pos, seq!['<', '!', '-', '-'])) by {
        if starts_at(s, pos, seq!['<', '!', '-', '-']) {
            assert(s.subrange(pos, pos + 4)[0] == s[pos]);
        }
    }
    assert(skip_prolog(s, pos) == Some(pos));
    assert(!starts_at(s, pos, seq!['<', '/'])) by {
        if starts_at(s, pos, seq!['<', '/']) {
            assert(s.subrange(pos, pos + 2)[0] == s[pos]);
        }
    }
    assert(!starts_at(s, pos, seq!['<'])) by {
        if starts_at(s, pos, seq!['<']) {
            assert(s.subrange(pos, pos + 1)[0] == s[pos]);
        }
    }
    lemma_find_char(s, pos, next, '<');
}

/// Whitespace, then a closing tag: the element is complete after its `>`.
proof fn lemma_content_close(
    s: Seq<char>,
    pos: int,
    name: Seq<char>,
    text: Seq<char>,
    children: Seq<XmlNode>,
    q: int,
    gt: int,
)
    requires
        0 <= pos <= q,
        q + 1 < gt < s.len(),
        forall|k: int| pos <= k < q ==> is_ws(#[trigger] s[k]),
        s[q] == '<',
        s[q + 1] == '/',
        s[gt] == '>',
        forall|k: int| q <= k < gt ==> #[trigger] s[k] != '>',
    ensures
        parse_content(s, pos, name, text, children) == Some((XmlNode { name, text, children }, gt + 1)),
{
    lemma_skip_ws_run(s, pos, q);
    assert(!starts_at(s, q, seq!['<', '?'])) by {
        if starts_at(s, q, seq!['<', '?']) {
            assert(s.subrange(q, q + 2)[1] == s[q + 1]);
        }
    }
    assert(!starts_at(s, q, seq!['<', '!', '-', '-'])) by {
        if starts_at(s, q, seq!['<', '!', '-', '-']) {
            assert(s.subrange(q, q + 4)[1] == s[q + 1]);
        }
    }
    assert(skip_prolog(s, pos) == Some(q));
    assert(s.subrange(q, q + 2) =~= seq!['<', '/']);
    lemma_find_char(s, q, gt, '>');
}

/// `<name>digits</name>` is read as an element with the digits as its text.
proof fn lemma_leaf(s: Seq<char>, p: int, name: Seq<char>, text: Seq<char>)
    requires
        0 <= p,
        p + leaf_xml(name, text).len() <= s.len(),
        plain_name(name),
        digit_text(text),
        s.subrange(p, p + leaf_xml(name, text).len()) == leaf_xml(name, text),
    ensures
        parse_element(s, p) == Some((
            XmlNode { name, text, children: Seq::empty() },
            p + leaf_xml(name, text).len(),
        )),
{
    let n = name.len();
    let d = text.len();
    let leaf = leaf_xml(name, text);
    assert forall|k: int| 0 <= k < leaf.len() implies #[trigger] s[p + k] == leaf[k] by {
        assert(s.subrange(p, p + leaf.len())[k] == s[p + k]);
    }
    assert(s.subrange(p, p + n + 2) =~= seq!['<'] + name + seq!['>']) by {
        assert forall|k: int| 0 <= k < n + 2 implies #[trigger] s.subrange(p, p + n + 2)[k] == (seq!['<'] + name + seq!['>'])[k] by {
            assert(s[p + k] == leaf[k]);
        }
    }
    lemma_open_tag(s, p, name);
    let a = p + n + 2;
    let q = a + d;
    assert forall|k: int| a <= k < q implies #[trigger] s[k] == text[k - a] by {
        assert(s[p + (k - p)] == leaf[k - p]);
    }
    assert(s[q] == '<') by {
        assert(s[p + (q - p)] == leaf[q - p]);
    }
    assert(s[q + 1] == '/') by {
        assert(s[p + (q + 1 - p)] == leaf[q + 1 - p]);
    }
    assert forall|k: int| a <= k < q implies #[trigger] s[k] != '<' by {
        assert(s[k] == text[k - a]);
    }
    assert(!is_ws(s[a])) by {
        assert(s[a] == text[0]);
    }
    lemma_content_text(s, a, name, Seq::empty(), Seq::empty(), q);
    assert(s.subrange(a, q) =~= text);
    assert(Seq::<char>::empty() + text =~= text);
    let gt = q + 2 + n;
    assert(s[gt] == '>') by {
        assert(s[p + (gt - p)] == leaf[gt - p]);
    }
    assert forall|k: int| q <= k < gt implies #[trigger] s[k] != '>' by {
        assert(s[p + (k - p)] == leaf[k - p]);
        if k >= q + 2 {
            assert(leaf[k - p] == name[k - q - 2]);
        }
    }
    lemma_content_close(s, q, name, text, Seq::empty(), q, gt);
}


/// Decimal text is digits only, and at least one.
proof fn lemma_dec_digits(n: nat)
    ensures
        digit_text(dec(n)),
    decreases n,
{
    if n >= 10 {
        lemma_dec_digits(n / 10);
        let d = dec(n / 10);
        assert forall|i: int| 0 <= i < dec(n).len() implies '0' <= #[trigger] dec(n)[i] <= '9' by {
            if i < d.len() {
                assert(dec(n)[i] == d[i]);
            }
        }
    }
}

/// A newline and `k` spaces.
pub open spec fn indent(k: nat) -> Seq<char> {
    seq!['\n'] + Seq::new(k, |_i: int| ' ')
}

/// The `SettingsItem` element the wizard writes for one node.
pub open spec fn item_element(node: TachNode) -> Seq<char> {
    seq!['<'] + TACH_ELEMENT_SETTINGS_ITEM@ + seq!['>'] + indent(6) + leaf_xml(TACH_ELEMENT_VALUE@, dec(node.rpm as nat))
        + indent(6) + leaf_xml(TACH_ELEMENT_TIME_VALUE@, dec(node.pulses as nat)) + indent(4) + seq!['<', '/']
        + TACH_ELEMENT_SETTINGS_ITEM@ + seq!['>']
}

/// The element the reader makes of one node's `SettingsItem`.
pub open spec fn item_node(node: TachNode) -> XmlNode {
    XmlNode {
        name: TACH_ELEMENT_SETTINGS_ITEM@,
        text: Seq::empty(),
        children: seq![
            XmlNode { name: TACH_ELEMENT_VALUE@, text: dec(node.rpm as nat), children: Seq::empty() },
            XmlNode { name: TACH_ELEMENT_TIME_VALUE@, text: dec(node.pulses as nat), children: Seq::empty() },
        ],
    }
}

proof fn lemma_names_plain()
    ensures
        plain_name(TACH_ELEMENT_SETTINGS_ITEM@),
        plain_name(TACH_ELEMENT_VALUE@),
        plain_name(TACH_ELEMENT_TIME_VALUE@),
        TACH_ELEMENT_SETTINGS_ITEM@.len() == 12,
        TACH_ELEMENT_VALUE@.len() == 5,
        TACH_ELEMENT_TIME_VALUE@.len() == 9,
        TACH_ELEMENT_VALUE@[0] == 'V',
        TACH_ELEMENT_TIME_VALUE@[0] == 'T',
{
    reveal_strlit("SettingsItem");
    reveal_strlit("Value");
    reveal_strlit("TimeValue");
}

/// A node's line in the file is four spaces, its element, and a newline.
proof fn lemma_item_shape(node: TachNode)
    ensures
        xml_item(node) == seq![' ', ' ', ' ', ' '] + item_element(node) + seq!['\n'],
{
    reveal_strlit("    <SettingsItem>\n      <Value>");
    reveal_strlit("</Value>\n      <TimeValue>");
    reveal_strlit("</TimeValue>\n    </SettingsItem>\n");
    reveal_strlit("SettingsItem");
    reveal_strlit("Value");
    reveal_strlit("TimeValue");
    assert(indent(6) =~= seq!['\n', ' ', ' ', ' ', ' ', ' ', ' ']);
    assert(indent(4) =~= seq!['\n', ' ', ' ', ' ', ' ']);
    assert(xml_item(node) =~= seq![' ', ' ', ' ', ' '] + item_element(node) + seq!['\n']);
}


/// The characters `piece` stand where the text `a + piece + b` stands from `p` on.
proof fn lemma_piece(s: Seq<char>, p: int, a: Seq<char>, piece: Seq<char>, b: Seq<char>)
    requires
        0 <= p,
        p + (a + piece + b).len() <= s.len(),
        s.subrange(p, p + (a + piece + b).len()) == a + piece + b,
    ensures
        s.subrange(p + a.len(), p + a.len() + piece.len()) == piece,
{
    let whole = a + piece + b;
    assert forall|j: int| 0 <= j < piece.len() implies #[trigger] s.subrange(p + a.len(), p + a.len() + piece.len())[j] == piece[j] by {
        assert(s.subrange(p, p + whole.len())[a.len() + j] == s[p + a.len() + j]);
        assert(whole[a.len() + j] == piece[j]);
    }
    assert(s.subrange(p + a.len(), p + a.len() + piece.len()) =~= piece);
}

/// Where `indent(k)` stands, every character is whitespace.
proof fn lemma_indent_ws(s: Seq<char>, p: int, k: nat)
    requires
        0 <= p,
        p + k + 1 <= s.len(),
        s.subrange(p, p + k + 1) == indent(k),
    ensures
        forall|i: int| p <= i < p + k + 1 ==> is_ws(#[trigger] s[i]),
{
    assert forall|i: int| p <= i < p + k + 1 implies is_ws(#[trigger] s[i]) by {
        assert(s.subrange(p, p + k + 1)[i - p] == s[i]);
        assert(indent(k)[i - p] == '\n' || indent(k)[i - p] == ' ');
    }
}

/// Regroupings of a text made of seven pieces.
proof fn lemma_seven(a: Seq<char>, b: Seq<char>, c: Seq<char>, d: Seq<char>, e: Seq<char>, f: Seq<char>, g: Seq<char>)
    ensures
        ({
            let w = a + b + c + d + e + f + g;
            &&& w == Seq::<char>::empty() + a + (b + c + d + e + f + g)
            &&& w == a + b + (c + d + e + f + g)
            &&& w == (a + b) + c + (d + e + f + g)
            &&& w == (a + b + c) + d + (e + f + g)
            &&& w == (a + b + c + d) + e + (f + g)
            &&& w == (a + b + c + d + e) + f + g
            &&& w == (a + b + c + d + e + f) + g + Seq::<char>::empty()
        }),
{
    let w = a + b + c + d + e + f + g;
    assert(w =~= Seq::<char>::empty() + a + (b + c + d + e + f + g));
    assert(w =~= a + b + (c + d + e + f + g));
    assert(w =~= (a + b) + c + (d + e + f + g));
    assert(w =~= (a + b + c) + d + (e + f + g));
    assert(w =~= (a + b + c + d) + e + (f + g));
    assert(w =~= (a + b + c + d + e) + f + g);
    assert(w =~= (a + b + c + d + e + f) + g + Seq::<char>::empty());
}

/// A node's `SettingsItem` element is read as its two-child element.
#[verifier::spinoff_prover]
#[verifier::rlimit(100)]
proof fn lemma_item_element(s: Seq<char>, p: int, node: TachNode)
    requires
        0 <= p,
        p + item_element(node).len() <= s.len(),
        s.subrange(p, p + item_element(node).len()) == item_element(node),
    ensures
        parse_element(s, p) == Some((item_node(node), p + item_element(node).len())),
{
    lemma_names_plain();
    let si = TACH_ELEMENT_SETTINGS_ITEM@;
    let d1 = dec(node.rpm as nat);
    let d2 = dec(node.pulses as nat);
    lemma_dec_digits(node.rpm as nat);
    lemma_dec_digits(node.pulses as nat);
    let open = seq!['<'] + si + seq!['>'];
    let leaf1 = leaf_xml(TACH_ELEMENT_VALUE@, d1);
    let leaf2 = leaf_xml(TACH_ELEMENT_TIME_VALUE@, d2);
    let close = seq!['<', '/'] + si + seq!['>'];
    let e = item_element(node);
    assert(e == open + indent(6) + leaf1 + indent(6) + leaf2 + indent(4) + close);
    lemma_seven(open, indent(6), leaf1, indent(6), leaf2, indent(4), close);
    let empty = Seq::<char>::empty();
    // the opening tag
    lemma_piece(s, p, empty, open, indent(6) + leaf1 + indent(6) + leaf2 + indent(4) + close);
    lemma_open_tag(s, p, si);
    // the rpm
    let a = p + 14;
    let pre1 = open;
    lemma_piece(s, p, pre1, indent(6), leaf1 + indent(6) + leaf2 + indent(4) + close);
    lemma_indent_ws(s, a, 6);
    let q1 = a + 7;
    let pre2 = open + indent(6);
    lemma_piece(s, p, pre2, leaf1, indent(6) + leaf2 + indent(4) + close);
    lemma_leaf(s, q1, TACH_ELEMENT_VALUE@, d1);
    assert(s[q1] == '<' && s[q1 + 1] == 'V') by {
        assert(s.subrange(q1, q1 + leaf1.len())[0] == s[q1]);
        assert(s.subrange(q1, q1 + leaf1.len())[1] == s[q1 + 1]);
    }
    let c1 = XmlNode { name: TACH_ELEMENT_VALUE@, text: d1, children: Seq::empty() };
    let after1 = q1 + leaf1.len();
    lemma_content_child(s, a, si, Seq::empty(), Seq::empty(), q1, c1, after1);
    // the pulses
    let pre3 = open + indent(6) + leaf1;
    lemma_piece(s, p, pre3, indent(6), leaf2 + indent(4) + close);
    lemma_indent_ws(s, after1, 6);
    let q2 = after1 + 7;
    let pre4 = open + indent(6) + leaf1 + indent(6);
    lemma_piece(s, p, pre4, leaf2, indent(4) + close);
    lemma_leaf(s, q2, TACH_ELEMENT_TIME_VALUE@, d2);
    assert(s[q2] == '<' && s[q2 + 1] == 'T') by {
        assert(s.subrange(q2, q2 + leaf2.len())[0] == s[q2]);
        assert(s.subrange(q2, q2 + leaf2.len())[1] == s[q2 + 1]);
    }
    let c2 = XmlNode { name: TACH_ELEMENT_TIME_VALUE@, text: d2, children: Seq::empty() };
    let after2 = q2 + leaf2.len();
    assert(Seq::<XmlNode>::empty().push(c1) =~= seq![c1]);
    lemma_content_child(s, after1, si, Seq::empty(), seq![c1], q2, c2, after2);
    // the closing tag
    let pre5 = open + indent(6) + leaf1 + indent(6) + leaf2;
    lemma_piece(s, p, pre5, indent(4), close);
    lemma_indent_ws(s, after2, 4);
    let q3 = after2 + 5;
    let pre6 = open + indent(6) + leaf1 + indent(6) + leaf2 + indent(4);
    lemma_piece(s, p, pre6, close, empty);
    let gt = q3 + 14;
    assert(s[q3] == '<' && s[q3 + 1] == '/' && s[gt] == '>') by {
        assert(s.subrange(q3, q3 + 15)[0] == s[q3]);
        assert(s.subrange(q3, q3 + 15)[1] == s[q3 + 1]);
        assert(s.subrange(q3, q3 + 15)[14] == s[gt]);
    }
    assert forall|k: int| q3 <= k < gt implies #[trigger] s[k] != '>' by {
        assert(s.subrange(q3, q3 + 15)[k - q3] == s[k]);
        if k - q3 >= 2 {
            assert(close[k - q3] == si[k - q3 - 2]);
        }
    }
    assert(seq![c1].push(c2) =~= seq![c1, c2]);
    lemma_content_close(s, after2, si, Seq::empty(), seq![c1].push(c2), q3, gt);
}


/// One node's line, read inside `SettingsValues`: after the newline that
/// ends the text before it, the line's element is the next child, and
/// reading goes on at the line's own newline.
proof fn lemma_item_step(s: Seq<char>, q: int, name: Seq<char>, children: Seq<XmlNode>, node: TachNode)
    requires
        0 <= q,
        q + 1 + xml_item(node).len() <= s.len(),
        s[q] == '\n',
        s.subrange(q + 1, q + 1 + xml_item(node).len()) == xml_item(node),
    ensures
        parse_content(s, q, name, Seq::empty(), children)
            == parse_content(s, q + xml_item(node).len(), name, Seq::empty(), children.push(item_node(node))),
        s[q + xml_item(node).len()] == '\n',
{
    lemma_item_shape(node);
    let e = item_element(node);
    let spaces = seq![' ', ' ', ' ', ' '];
    let nl = seq!['\n'];
    lemma_piece(s, q + 1, spaces, e, nl);
    lemma_piece(s, q + 1, spaces + e, nl, Seq::empty());
    assert(spaces + e + nl + Seq::<char>::empty() =~= spaces + e + nl);
    assert(Seq::<char>::empty() + spaces + (e + nl) =~= spaces + e + nl);
    lemma_piece(s, q + 1, Seq::empty(), spaces, e + nl);
    assert(s[q + xml_item(node).len()] == '\n') by {
        assert(s.subrange(q + 5 + e.len(), q + 6 + e.len())[0] == s[q + 5 + e.len()]);
    }
    assert forall|k: int| q <= k < q + 5 implies is_ws(#[trigger] s[k]) by {
        if k > q {
            assert(s.subrange(q + 1, q + 5)[k - q - 1] == s[k]);
        }
    }
    lemma_item_element(s, q + 5, node);
    lemma_names_plain();
    assert(s[q + 5] == '<' && s[q + 6] == 'S') by {
        assert(s.subrange(q + 5, q + 5 + e.len())[0] == s[q + 5]);
        assert(s.subrange(q + 5, q + 5 + e.len())[1] == s[q + 6]);
        reveal_strlit("SettingsItem");
    }
    lemma_content_child(s, q, name, Seq::empty(), children, q + 5, item_node(node), q + 5 + e.len());
}

/// The wizard's lines for `a` then `b` are the lines for `a + b`.
proof fn lemma_items_append(a: Seq<TachNode>, b: Seq<TachNode>)
    ensures
        xml_items(a + b) == xml_items(a) + xml_items(b),
    decreases b.len(),
{
    if b.len() == 0 {
        assert(a + b =~= a);
        assert(xml_items(a) + xml_items(b) =~= xml_items(a));
    } else {
        lemma_items_append(a, b.drop_last());
        assert((a + b).drop_last() =~= a + b.drop_last());
        assert((a + b).last() == b.last());
        assert(xml_items(a + b) =~= xml_items(a) + xml_items(b));
    }
}

/// The elements the reader makes of the nodes' lines.
pub open spec fn item_nodes(nodes: Seq<TachNode>) -> Seq<XmlNode> {
    nodes.map_values(|n: TachNode| item_node(n))
}

/// The lines of the nodes, from a newline at `q0` on, are read one child each.
proof fn lemma_items(s: Seq<char>, q0: int, name: Seq<char>, nodes: Seq<TachNode>, k: int)
    requires
        0 <= q0,
        0 <= k <= nodes.len(),
        q0 + 1 + xml_items(nodes).len() <= s.len(),
        s[q0] == '\n',
        s.subrange(q0 + 1, q0 + 1 + xml_items(nodes).len()) == xml_items(nodes),
    ensures
        parse_content(s, q0, name, Seq::empty(), Seq::empty()) == parse_content(
            s,
            q0 + xml_items(nodes.take(k)).len(),
            name,
            Seq::empty(),
            item_nodes(nodes.take(k)),
        ),
        s[q0 + xml_items(nodes.take(k)).len()] == '\n',
    decreases k,
{
    if k == 0 {
        assert(nodes.take(0) =~= Seq::<TachNode>::empty());
        assert(item_nodes(nodes.take(0)) =~= Seq::<XmlNode>::empty());
    } else {
        lemma_items(s, q0, name, nodes, k - 1);
        let pre = nodes.take(k - 1);
        let node = nodes[k - 1];
        let rest = nodes.skip(k);
        assert(nodes =~= pre + seq![node] + rest);
        lemma_items_append(pre, seq![node]);
        lemma_items_append(pre + seq![node], rest);
        assert(xml_items(seq![node]) =~= xml_item(node)) by {
            assert(seq![node].drop_last() =~= Seq::<TachNode>::empty());
            assert(seq![node].last() == node);
            assert(xml_items(Seq::<TachNode>::empty()) == Seq::<char>::empty());
            assert(xml_items(seq![node]) == xml_items(seq![node].drop_last()) + xml_item(seq![node].last()));
        }
        assert(nodes.take(k) =~= pre + seq![node]);
        let qk = q0 + xml_items(pre).len();
        let whole = xml_items(nodes);
        assert(whole == xml_items(pre) + xml_item(node) + xml_items(rest));
        lemma_piece(s, q0 + 1, xml_items(pre), xml_item(node), xml_items(rest));
        lemma_item_step(s, qk, name, item_nodes(pre), node);
        assert(item_nodes(pre).push(item_node(node)) =~= item_nodes(nodes.take(k)));
    }
}


/// The number decimal text spells is the number it was made from.
proof fn lemma_dec_value(n: nat)
    ensures
        digits_value(dec(n)) == n,
    decreases n,
{
    let d = n % 10;
    assert((digit_char(d) as int) - ('0' as int) == d);
    assert(dec(n).len() > 0);
    assert(digits_value(dec(n)) == digits_value(dec(n).drop_last()) * 10 + ((dec(n).last() as int) - ('0' as int)));
    if n >= 10 {
        lemma_dec_value(n / 10);
        assert(dec(n).drop_last() =~= dec(n / 10));
        assert(dec(n).last() == digit_char(n % 10));
        assert((n / 10) * 10 + n % 10 == n) by (nonlinear_arith);
    } else {
        assert(dec(n).drop_last() =~= Seq::<char>::empty());
        assert(dec(n).last() == digit_char(n));
        assert(digits_value(Seq::<char>::empty()) == 0);
        assert(n % 10 == n);
    }
}

proof fn lemma_sign_digit_run(t: Seq<char>, from: int)
    requires
        0 <= from <= t.len(),
        digit_text(t),
    ensures
        sign_digit_end(t, from, t.len() as int) == t.len(),
    decreases t.len() - from,
{
    if from < t.len() {
        lemma_sign_digit_run(t, from + 1);
    }
}

/// A `u32` written in decimal parses back as itself.
pub proof fn decimal_u32_parses_back(x: u32)
    ensures
        spec_parse_u32(dec(x as nat)) == Some(x),
{
    let t = dec(x as nat);
    lemma_dec_digits(x as nat);
    lemma_dec_value(x as nat);
    assert(all_digits(t));
}

/// The reader takes a number written in decimal back as that number.
proof fn lemma_text_u32_dec(x: u32)
    ensures
        text_u32(dec(x as nat)) == x,
{
    let t = dec(x as nat);
    lemma_dec_digits(x as nat);
    lemma_dec_value(x as nat);
    lemma_skip_ws_run(t, 0, 0);
    assert(trim_end_pos(t, 0, t.len() as int) == t.len());
    lemma_sign_digit_run(t, 0);
    assert(t.subrange(0, t.len() as int) =~= t);
    assert(all_digits(t));
    assert(spec_parse_u32(t) == Some(x));
}

/// A node's element gives back the node's point.
proof fn lemma_item_point(node: TachNode)
    ensures
        node_points(item_node(node)) == seq![TachPoint { rpm: node.rpm, pulses: node.pulses }],
{
    lemma_names_plain();
    reveal_strlit("SettingsItem");
    reveal_strlit("Value");
    reveal_strlit("TimeValue");
    lemma_text_u32_dec(node.rpm);
    lemma_text_u32_dec(node.pulses);
    let si = TACH_ELEMENT_SETTINGS_ITEM@;
    let v = TACH_ELEMENT_VALUE@;
    let tv = TACH_ELEMENT_TIME_VALUE@;
    assert(eq_ascii_ci(si, si));
    assert(eq_ascii_ci(v, v));
    assert(eq_ascii_ci(tv, tv));
    assert(!eq_ascii_ci(v, tv));
    assert(!eq_ascii_ci(tv, v));
    let children = item_node(node).children;
    assert(item_values(children, 2, node.rpm, node.pulses, true) == (node.rpm, node.pulses, true));
    assert(item_values(children, 1, node.rpm, 0, false) == (node.rpm, node.pulses, true));
    assert(item_values(children, 0, 0, 0, false) == (node.rpm, node.pulses, true));
}

/// The points of the nodes' elements are the nodes' points, in order.
proof fn lemma_items_points(nodes: Seq<TachNode>)
    ensures
        nodes_points(item_nodes(nodes)) == nodes.map_values(|n: TachNode| TachPoint { rpm: n.rpm, pulses: n.pulses }),
    decreases nodes.len(),
{
    let ns = item_nodes(nodes);
    if nodes.len() == 0 {
        assert(ns =~= Seq::<XmlNode>::empty());
        assert(nodes.map_values(|n: TachNode| TachPoint { rpm: n.rpm, pulses: n.pulses }) =~= Seq::<TachPoint>::empty());
    } else {
        let init = nodes.drop_last();
        lemma_items_points(init);
        assert(ns.subrange(0, ns.len() - 1) =~= item_nodes(init));
        lemma_item_point(nodes.last());
        assert(ns[ns.len() - 1] == item_node(nodes.last()));
        assert(nodes_points(ns) == nodes_points(ns.subrange(0, ns.len() - 1)) + node_points(ns[ns.len() - 1]));
        assert(nodes_points(ns) =~= nodes.map_values(|n: TachNode| TachPoint { rpm: n.rpm, pulses: n.pulses }));
    }
}


/// The XML declaration the wizard writes first.
pub open spec fn xml_decl() -> Seq<char> {
    "<?xml version=\"1.0\" encoding=\"UTF-8\"?>"@
}

pub open spec fn root_name() -> Seq<char> {
    "TachometerSettings"@
}

pub open spec fn values_name() -> Seq<char> {
    "SettingsValues"@
}

pub open spec fn max_name() -> Seq<char> {
    "MaxDisplayValue"@
}

pub open spec fn open_tag(name: Seq<char>) -> Seq<char> {
    seq!['<'] + name + seq!['>']
}

pub open spec fn close_tag(name: Seq<char>) -> Seq<char> {
    seq!['<', '/'] + name + seq!['>']
}

proof fn lemma_frame_names()
    ensures
        plain_name(root_name()),
        plain_name(values_name()),
        plain_name(max_name()),
        root_name().len() == 18,
        values_name().len() == 14,
        max_name().len() == 15,
        root_name()[0] == 'T',
        values_name()[0] == 'S',
        max_name()[0] == 'M',
        xml_decl().len() == 38,
        xml_decl()[0] == '<',
        xml_decl()[1] == '?',
        xml_decl()[2] == 'x',
        xml_decl()[36] == '?',
        xml_decl()[37] == '>',
        forall|k: int| 0 <= k < 38 && k != 1 && k != 36 ==> #[trigger] xml_decl()[k] != '?',
{
    reveal_strlit("TachometerSettings");
    reveal_strlit("SettingsValues");
    reveal_strlit("MaxDisplayValue");
    reveal_strlit("<?xml version=\"1.0\" encoding=\"UTF-8\"?>");
}

proof fn lemma_head_shape()
    ensures
        xml_head() == xml_decl() + indent(0) + open_tag(root_name()) + indent(2) + open_tag(values_name()) + seq!['\n'],
        xml_head().len() == 79,
{
    reveal_strlit("<?xml version=\"1.0\" encoding=\"UTF-8\"?>\n<TachometerSettings>\n  <SettingsValues>\n");
    reveal_strlit("TachometerSettings");
    reveal_strlit("SettingsValues");
    reveal_strlit("<?xml version=\"1.0\" encoding=\"UTF-8\"?>");
    assert(indent(0) =~= seq!['\n']);
    assert(indent(2) =~= seq!['\n', ' ', ' ']);
    assert(xml_head() =~= xml_decl() + indent(0) + open_tag(root_name()) + indent(2) + open_tag(values_name()) + seq!['\n']);
}

proof fn lemma_tail_shape(max_revs: u32)
    ensures
        xml_tail(max_revs) == seq![' ', ' '] + close_tag(values_name()) + indent(2) + leaf_xml(max_name(), dec(max_revs as nat))
            + indent(0) + close_tag(root_name()) + seq!['\n'],
{
    reveal_strlit("  </SettingsValues>\n  <MaxDisplayValue>");
    reveal_strlit("</MaxDisplayValue>\n</TachometerSettings>\n");
    reveal_strlit("TachometerSettings");
    reveal_strlit("SettingsValues");
    reveal_strlit("MaxDisplayValue");
    assert(indent(0) =~= seq!['\n']);
    assert(indent(2) =~= seq!['\n', ' ', ' ']);
    assert(xml_tail(max_revs) =~= seq![' ', ' '] + close_tag(values_name()) + indent(2) + leaf_xml(max_name(), dec(max_revs as nat))
        + indent(0) + close_tag(root_name()) + seq!['\n']);
}


/// Regroupings of a text made of six pieces.
proof fn lemma_six(a: Seq<char>, b: Seq<char>, c: Seq<char>, d: Seq<char>, e: Seq<char>, f: Seq<char>)
    ensures
        ({
            let w = a + b + c + d + e + f;
            &&& w == Seq::<char>::empty() + a + (b + c + d + e + f)
            &&& w == a + b + (c + d + e + f)
            &&& w == (a + b) + c + (d + e + f)
            &&& w == (a + b + c) + d + (e + f)
            &&& w == (a + b + c + d) + e + f
            &&& w == (a + b + c + d + e) + f + Seq::<char>::empty()
        }),
{
    let w = a + b + c + d + e + f;
    assert(w =~= Seq::<char>::empty() + a + (b + c + d + e + f));
    assert(w =~= a + b + (c + d + e + f));
    assert(w =~= (a + b) + c + (d + e + f));
    assert(w =~= (a + b + c) + d + (e + f));
    assert(w =~= (a + b + c + d) + e + f);
    assert(w =~= (a + b + c + d + e) + f + Seq::<char>::empty());
}

/// The file the wizard writes.
pub open spec fn written(max_revs: u32, nodes: Seq<TachNode>) -> Seq<char> {
    xml_head() + xml_items(nodes) + xml_tail(max_revs)
}

/// The written file is its head, its lines, and its tail.
proof fn lemma_written_parts(max_revs: u32, nodes: Seq<TachNode>)
    ensures
        ({
            let s = written(max_revs, nodes);
            let i = xml_items(nodes);
            &&& s.subrange(0, xml_head().len() as int) == xml_head()
            &&& s.subrange(xml_head().len() as int, (xml_head().len() + i.len()) as int) == i
            &&& s.subrange((xml_head().len() + i.len()) as int, s.len() as int) == xml_tail(max_revs)
        }),
{
    let s = written(max_revs, nodes);
    let h = xml_head();
    let i = xml_items(nodes);
    let t = xml_tail(max_revs);
    assert(s.subrange(0, s.len() as int) =~= s);
    assert(s =~= Seq::<char>::empty() + h + (i + t));
    lemma_piece(s, 0, Seq::empty(), h, i + t);
    lemma_piece(s, 0, h, i, t);
    assert(s =~= (h + i) + t + Seq::<char>::empty());
    lemma_piece(s, 0, h + i, t, Seq::empty());
}

/// Where the pieces of the head stand.
#[verifier::spinoff_prover]
proof fn lemma_head_pieces(max_revs: u32, nodes: Seq<TachNode>)
    ensures
        ({
            let s = written(max_revs, nodes);
            &&& s.subrange(0, 38) == xml_decl()
            &&& s[38] == '\n'
            &&& s.subrange(39, 59) == open_tag(root_name())
            &&& s.subrange(59, 62) == indent(2)
            &&& s.subrange(62, 78) == open_tag(values_name())
            &&& s[78] == '\n'
        }),
{
    lemma_head_shape();
    lemma_frame_names();
    lemma_written_parts(max_revs, nodes);
    let s = written(max_revs, nodes);
    let (h1, h2, h3, h4, h5, h6) = (xml_decl(), indent(0), open_tag(root_name()), indent(2), open_tag(values_name()), seq!['\n']);
    lemma_six(h1, h2, h3, h4, h5, h6);
    lemma_piece(s, 0, Seq::empty(), h1, h2 + h3 + h4 + h5 + h6);
    lemma_piece(s, 0, h1, h2, h3 + h4 + h5 + h6);
    lemma_piece(s, 0, h1 + h2, h3, h4 + h5 + h6);
    lemma_piece(s, 0, h1 + h2 + h3, h4, h5 + h6);
    lemma_piece(s, 0, h1 + h2 + h3 + h4, h5, h6);
    lemma_piece(s, 0, h1 + h2 + h3 + h4 + h5, h6, Seq::empty());
    assert(s[38] == '\n') by {
        assert(s.subrange(38, 39)[0] == s[38]);
    }
    assert(s[78] == '\n') by {
        assert(s.subrange(78, 79)[0] == s[78]);
    }
}

/// Where the pieces of the tail stand.
#[verifier::spinoff_prover]
proof fn lemma_tail_pieces(max_revs: u32, nodes: Seq<TachNode>)
    ensures
        ({
            let s = written(max_revs, nodes);
            let qi = 78 + xml_items(nodes).len() as int;
            let d = dec(max_revs as nat);
            let m = qi + 23 + leaf_xml(max_name(), d).len() as int;
            &&& s.len() == m + 23
            &&& s[qi + 1] == ' ' && s[qi + 2] == ' '
            &&& s.subrange(qi + 3, qi + 20) == close_tag(values_name())
            &&& s.subrange(qi + 20, qi + 23) == indent(2)
            &&& s.subrange(qi + 23, m) == leaf_xml(max_name(), d)
            &&& s[m] == '\n'
            &&& s.subrange(m + 1, m + 22) == close_tag(root_name())
            &&& s[m + 22] == '\n'
        }),
{
    lemma_head_shape();
    lemma_tail_shape(max_revs);
    lemma_frame_names();
    lemma_written_parts(max_revs, nodes);
    let s = written(max_revs, nodes);
    let d = dec(max_revs as nat);
    let start = 79 + xml_items(nodes).len() as int;
    let (t1, t2, t3, t4, t5, t6, t7) = (seq![' ', ' '], close_tag(values_name()), indent(2), leaf_xml(max_name(), d),
        indent(0), close_tag(root_name()), seq!['\n']);
    lemma_seven(t1, t2, t3, t4, t5, t6, t7);
    lemma_piece(s, start, Seq::empty(), t1, t2 + t3 + t4 + t5 + t6 + t7);
    lemma_piece(s, start, t1, t2, t3 + t4 + t5 + t6 + t7);
    lemma_piece(s, start, t1 + t2, t3, t4 + t5 + t6 + t7);
    lemma_piece(s, start, t1 + t2 + t3, t4, t5 + t6 + t7);
    lemma_piece(s, start, t1 + t2 + t3 + t4, t5, t6 + t7);
    lemma_piece(s, start, t1 + t2 + t3 + t4 + t5, t6, t7);
    lemma_piece(s, start, t1 + t2 + t3 + t4 + t5 + t6, t7, Seq::empty());
    assert(s[start] == ' ' && s[start + 1] == ' ') by {
        assert(s.subrange(start, start + 2)[0] == s[start]);
        assert(s.subrange(start, start + 2)[1] == s[start + 1]);
    }
    let m = start + 22 + t4.len() as int;
    assert(s[m] == '\n') by {
        assert(s.subrange(m, m + 1)[0] == s[m]);
    }
    assert(s[m + 22] == '\n') by {
        assert(s.subrange(m + 22, m + 23)[0] == s[m + 22]);
    }
}

/// Where the pieces of the written file stand.
proof fn lemma_written_pieces(max_revs: u32, nodes: Seq<TachNode>)
    ensures
        ({
            let s = written(max_revs, nodes);
            let qi = 78 + xml_items(nodes).len() as int;
            let d = dec(max_revs as nat);
            let m = qi + 23 + leaf_xml(max_name(), d).len() as int;
            &&& s.len() == m + 23
            &&& s.subrange(0, 38) == xml_decl()
            &&& s[38] == '\n'
            &&& s.subrange(39, 59) == open_tag(root_name())
            &&& s.subrange(59, 62) == indent(2)
            &&& s.subrange(62, 78) == open_tag(values_name())
            &&& s[78] == '\n'
            &&& s.subrange(79, 79 + xml_items(nodes).len() as int) == xml_items(nodes)
            &&& s[qi + 1] == ' ' && s[qi + 2] == ' '
            &&& s.subrange(qi + 3, qi + 20) == close_tag(values_name())
            &&& s.subrange(qi + 20, qi + 23) == indent(2)
            &&& s.subrange(qi + 23, m) == leaf_xml(max_name(), d)
            &&& s[m] == '\n'
            &&& s.subrange(m + 1, m + 22) == close_tag(root_name())
            &&& s[m + 22] == '\n'
        }),
{
    lemma_head_shape();
    lemma_written_parts(max_revs, nodes);
    lemma_head_pieces(max_revs, nodes);
    lemma_tail_pieces(max_revs, nodes);
}

/// The element the reader makes of the written `SettingsValues`.
pub open spec fn values_node(nodes: Seq<TachNode>) -> XmlNode {
    XmlNode { name: values_name(), text: Seq::empty(), children: item_nodes(nodes) }
}

/// The element the reader makes of the written file.
pub open spec fn root_node(max_revs: u32, nodes: Seq<TachNode>) -> XmlNode {
    XmlNode {
        name: root_name(),
        text: Seq::empty(),
        children: seq![
            values_node(nodes),
            XmlNode { name: max_name(), text: dec(max_revs as nat), children: Seq::empty() },
        ],
    }
}

/// Where a closing tag stands, it starts with `</` and its first `>` is its last character.
proof fn lemma_close_tag_at(s: Seq<char>, q: int, name: Seq<char>)
    requires
        0 <= q,
        q + name.len() + 3 <= s.len(),
        plain_name(name),
        s.subrange(q, q + name.len() + 3) == close_tag(name),
    ensures
        s[q] == '<',
        s[q + 1] == '/',
        s[q + name.len() + 2] == '>',
        forall|k: int| q <= k < q + name.len() + 2 ==> #[trigger] s[k] != '>',
{
    let t = close_tag(name);
    assert forall|k: int| q <= k < q + name.len() + 3 implies #[trigger] s[k] == t[k - q] by {
        assert(s.subrange(q, q + name.len() + 3)[k - q] == s[k]);
    }
    assert forall|k: int| q <= k < q + name.len() + 2 implies #[trigger] s[k] != '>' by {
        assert(s[k] == t[k - q]);
        if k - q >= 2 {
            assert(t[k - q] == name[k - q - 2]);
        }
    }
}

/// The written `SettingsValues` is read with one child per node.
#[verifier::spinoff_prover]
proof fn lemma_values_element(max_revs: u32, nodes: Seq<TachNode>)
    ensures
        parse_element(written(max_revs, nodes), 62) == Some((values_node(nodes), 98 + xml_items(nodes).len() as int)),
{
    let s = written(max_revs, nodes);
    lemma_written_pieces(max_revs, nodes);
    lemma_frame_names();
    let qi = 78 + xml_items(nodes).len() as int;
    lemma_open_tag(s, 62, values_name());
    lemma_items(s, 78, values_name(), nodes, nodes.len() as int);
    assert(nodes.take(nodes.len() as int) =~= nodes);
    assert forall|k: int| qi <= k < qi + 3 implies is_ws(#[trigger] s[k]) by {}
    lemma_close_tag_at(s, qi + 3, values_name());
    lemma_content_close(s, qi, values_name(), Seq::empty(), item_nodes(nodes), qi + 3, qi + 19);
}

/// The written file's root element is read with its two children.
#[verifier::spinoff_prover]
proof fn lemma_root_element(max_revs: u32, nodes: Seq<TachNode>)
    ensures
        parse_element(written(max_revs, nodes), 39) == Some((root_node(max_revs, nodes), written(max_revs, nodes).len() as int - 1)),
{
    let s = written(max_revs, nodes);
    lemma_written_pieces(max_revs, nodes);
    lemma_frame_names();
    let qi = 78 + xml_items(nodes).len() as int;
    let d = dec(max_revs as nat);
    let m = qi + 23 + leaf_xml(max_name(), d).len() as int;
    lemma_open_tag(s, 39, root_name());
    // SettingsValues
    lemma_indent_ws(s, 59, 2);
    lemma_values_element(max_revs, nodes);
    assert(s[62] == '<' && s[63] == 'S') by {
        assert(s.subrange(62, 78)[0] == s[62]);
        assert(s.subrange(62, 78)[1] == s[63]);
    }
    lemma_content_child(s, 59, root_name(), Seq::empty(), Seq::empty(), 62, values_node(nodes), qi + 20);
    // MaxDisplayValue
    lemma_indent_ws(s, qi + 20, 2);
    lemma_dec_digits(max_revs as nat);
    lemma_leaf(s, qi + 23, max_name(), d);
    assert(s[qi + 23] == '<' && s[qi + 24] == 'M') by {
        assert(s.subrange(qi + 23, m)[0] == s[qi + 23]);
        assert(s.subrange(qi + 23, m)[1] == s[qi + 24]);
    }
    let maxn = XmlNode { name: max_name(), text: d, children: Seq::empty() };
    assert(Seq::<XmlNode>::empty().push(values_node(nodes)) =~= seq![values_node(nodes)]);
    lemma_content_child(s, qi + 20, root_name(), Seq::empty(), seq![values_node(nodes)], qi + 23, maxn, m);
    // the closing tag
    assert forall|k: int| m <= k < m + 1 implies is_ws(#[trigger] s[k]) by {}
    lemma_close_tag_at(s, m + 1, root_name());
    assert(seq![values_node(nodes)].push(maxn) =~= root_node(max_revs, nodes).children);
    lemma_content_close(s, m, root_name(), Seq::empty(), seq![values_node(nodes)].push(maxn), m + 1, m + 21);
}

/// The written file holds one top-level element.
#[verifier::spinoff_prover]
proof fn lemma_written_roots(max_revs: u32, nodes: Seq<TachNode>)
    ensures
        parse_roots(written(max_revs, nodes), 0, Seq::empty()) == Some(seq![root_node(max_revs, nodes)]),
{
    let s = written(max_revs, nodes);
    lemma_written_pieces(max_revs, nodes);
    lemma_frame_names();
    lemma_root_element(max_revs, nodes);
    let decl = xml_decl();
    assert forall|k: int| 0 <= k < 38 implies #[trigger] s[k] == decl[k] by {
        assert(s.subrange(0, 38)[k] == s[k]);
    }
    // the declaration
    let qm = seq!['?', '>'];
    assert(s.subrange(36, 38) =~= qm);
    assert forall|k: int| 0 <= k < 36 implies !#[trigger] starts_at(s, k, qm) by {
        if starts_at(s, k, qm) {
            assert(s.subrange(k, k + 2)[0] == s[k]);
            assert(s.subrange(k, k + 2)[1] == s[k + 1]);
        }
    }
    lemma_find_first(s, 0, 36, qm);
    assert(s.subrange(0, 2) =~= seq!['<', '?']);
    lemma_skip_ws_run(s, 0, 0);
    assert(s[39] == '<' && s[40] == 'T') by {
        assert(s.subrange(39, 59)[0] == s[39]);
        assert(s.subrange(39, 59)[1] == s[40]);
    }
    lemma_skip_ws_run(s, 38, 39);
    assert(!starts_at(s, 39, seq!['<', '?'])) by {
        if starts_at(s, 39, seq!['<', '?']) {
            assert(s.subrange(39, 41)[1] == s[40]);
        }
    }
    assert(!starts_at(s, 39, seq!['<', '!', '-', '-'])) by {
        if starts_at(s, 39, seq!['<', '!', '-', '-']) {
            assert(s.subrange(39, 43)[1] == s[40]);
        }
    }
    assert(skip_prolog(s, 38) == Some(39int));
    assert(skip_prolog(s, 0) == Some(39int));
    // after the root element, only a newline
    let end = s.len() - 1;
    lemma_skip_ws_run(s, end, s.len() as int);
    assert(skip_prolog(s, end) == None::<int>);
    assert(Seq::<XmlNode>::empty().push(root_node(max_revs, nodes)) =~= seq![root_node(max_revs, nodes)]);
    assert(parse_roots(s, end, seq![root_node(max_revs, nodes)]) == Some(seq![root_node(max_revs, nodes)]));
}

/// What the tachometer wizard writes, the reader reads back: the file for
/// some calibrated nodes gives exactly their rpm and pulses, in order, and a
/// file without nodes is refused for holding no settings.
pub proof fn written_tach_xml_reads_back(max_revs: u32, nodes: Seq<TachNode>)
    ensures
        spec_parse_tach_xml(xml_head() + xml_items(nodes) + xml_tail(max_revs)) == (if nodes.len() == 0 {
            Err(ERR_NO_SETTINGS@)
        } else {
            Ok(nodes.map_values(|n: TachNode| TachPoint { rpm: n.rpm, pulses: n.pulses }))
        }),
{
    lemma_written_roots(max_revs, nodes);
    lemma_frame_names();
    lemma_names_plain();
    reveal_strlit("SettingsItem");
    reveal_strlit("TachometerSettings");
    reveal_strlit("SettingsValues");
    reveal_strlit("MaxDisplayValue");
    let root = root_node(max_revs, nodes);
    let maxn = XmlNode { name: max_name(), text: dec(max_revs as nat), children: Seq::empty() };
    assert(!eq_ascii_ci(root_name(), TACH_ELEMENT_SETTINGS_ITEM@));
    assert(!eq_ascii_ci(values_name(), TACH_ELEMENT_SETTINGS_ITEM@));
    assert(!eq_ascii_ci(max_name(), TACH_ELEMENT_SETTINGS_ITEM@));
    assert(nodes_points(Seq::<XmlNode>::empty()) == Seq::<TachPoint>::empty());
    assert(node_points(maxn) == Seq::<TachPoint>::empty());
    lemma_items_points(nodes);
    assert(node_points(values_node(nodes)) == nodes_points(item_nodes(nodes)));
    let kids = root.children;
    assert(kids.subrange(0, 1) =~= seq![values_node(nodes)]);
    assert(seq![values_node(nodes)].subrange(0, 0) =~= Seq::<XmlNode>::empty());
    assert(nodes_points(seq![values_node(nodes)]) =~= node_points(values_node(nodes)));
    assert(nodes_points(kids) =~= node_points(values_node(nodes)));
    assert(node_points(root) == nodes_points(kids));
    assert(seq![root].subrange(0, 0) =~= Seq::<XmlNode>::empty());
    assert(nodes_points(seq![root]) =~= node_points(root));
    let points = nodes.map_values(|n: TachNode| TachPoint { rpm: n.rpm, pulses: n.pulses });
    assert(nodes_points(seq![root]) == points);
    assert(points.len() == nodes.len());
}


/// The wizard's rpm targets at granularity 1, 2 or 4 run from 250 rpm up to
/// the max revs rounded down to the thousand, never past it, rising by
/// `1000 / granularity` after the second and landing on its multiples.
pub proof fn wizard_targets_span_the_revs(max_revs: u32, g: u32)
    requires
        max_revs >= MIN_REVS,
        g == 1 || g == 2 || g == 4,
    ensures
        ({
            let n = node_count(max_revs, g);
            let top = (max_revs / 1000) as int * 1000int;
            let step = 1000int / (g as int);
            &&& n >= 2
            &&& top <= max_revs
            &&& target_at(g, 0) == 250
            &&& target_at(g, n - 1) == top
            &&& forall|i: int| 0 <= i < n ==> #[trigger] target_at(g, i) <= top
            &&& forall|i: int| 1 <= i < n ==> #[trigger] target_at(g, i) % step == 0 && target_at(g, i - 1) < target_at(g, i)
            &&& forall|i: int| 1 <= i < n - 1 ==> #[trigger] target_at(g, i + 1) - target_at(g, i) == step
        }),
{
    let m = (max_revs / 1000) as int;
    assert(m >= 2);
    assert(m * 1000 <= max_revs);
    let n = node_count(max_revs, g);
    let step = 1000int / (g as int);
    if g == 4 {
        assert(n == m * 4);
        assert forall|i: int| 1 <= i < n implies #[trigger] target_at(g, i) % step == 0 && target_at(g, i - 1) < target_at(g, i) by {
            assert(((i + 1) * 250) % 250 == 0) by (nonlinear_arith);
        }
        assert(target_at(g, n - 1) == m * 1000);
    } else {
        assert(n == m * (g as int) + 1);
        assert forall|i: int| 1 <= i < n implies #[trigger] target_at(g, i) % step == 0 && target_at(g, i - 1) < target_at(g, i) by {
            assert((i * step) % step == 0) by (nonlinear_arith)
                requires
                    step > 0,
            ;
        }
        assert forall|i: int| 0 <= i < n implies #[trigger] target_at(g, i) <= m * 1000 by {
            if i > 0 {
                assert(i * step <= (n - 1) * step) by (nonlinear_arith)
                    requires
                        i <= n - 1,
                        step > 0,
                ;
            }
        }
        assert(target_at(g, n - 1) == (n - 1) * step);
        assert((n - 1) * step == m * 1000) by (nonlinear_arith)
            requires
                n - 1 == m * (g as int),
                step * (g as int) == 1000,
        ;
    }
}

/// A granularity is kept exactly when its rpm step splits the thousand into
/// that many parts (1, 2 and 4); any other becomes 1.
pub proof fn accepted_granularities_split_the_thousand(v: u32)
    ensures
        (spec_accepted_granularity(v) == v) <==> (v >= 1 && increment_of(v) * (v as int) == 1000),
        spec_accepted_granularity(v) != v ==> spec_accepted_granularity(v) == 1,
{
    if v == 2 {
        assert(increment_of(v) * (v as int) == 1000);
    } else if v >= 4 {
        assert(increment_of(v) == 250);
        assert(increment_of(v) * (v as int) == 250 * (v as int));
    } else {
        assert(increment_of(v) == 1000);
        assert(increment_of(v) * (v as int) == 1000 * (v as int));
    }
}

/// Whatever granularity the command line asks for, the wizard's targets at
/// the one it keeps run from 250 rpm to the max revs.
pub proof fn kept_granularity_spans_the_revs(max_revs: u32, v: u32)
    requires
        max_revs >= MIN_REVS,
    ensures
        ({
            let g = spec_accepted_granularity(v);
            &&& target_at(g, 0) == 250
            &&& target_at(g, node_count(max_revs, g) - 1) == (max_revs / 1000) as int * 1000
        }),
{
    wizard_targets_span_the_revs(max_revs, spec_accepted_granularity(v));
}

} // verus!
