//! Building blocks of the terminal output: decimal numbers, left-aligned
//! padding, and styled spans that are painted with ANSI colours.
use vstd::prelude::*;

verus! {

// ---------------------------------------------------------------------------
// Decimal numbers
// ---------------------------------------------------------------------------

/// The character of a decimal digit.
pub open spec fn digit_char(d: nat) -> char {
    if d == 0 { '0' }
    else if d == 1 { '1' }
    else if d == 2 { '2' }
    else if d == 3 { '3' }
    else if d == 4 { '4' }
    else if d == 5 { '5' }
    else if d == 6 { '6' }
    else if d == 7 { '7' }
    else if d == 8 { '8' }
    else { '9' }
}

/// The decimal notation of a natural number, without leading zeros.
pub open spec fn decimal(n: nat) -> Seq<char>
    decreases n,
{
    if n < 10 {
        seq![digit_char(n)]
    } else {
        decimal(n / 10).push(digit_char(n % 10))
    }
}

/// The decimal notation of an integer: a minus sign before negative numbers.
pub open spec fn signed_decimal(n: int) -> Seq<char> {
    if n < 0 {
        seq!['-'] + decimal((-n) as nat)
    } else {
        decimal(n as nat)
    }
}

pub(crate) fn digit_str(d: u64) -> (res: &'static str)
    requires
        d < 10,
    ensures
        res@ == seq![digit_char(d as nat)],
{
    proof {
        reveal_strlit("0");
        reveal_strlit("1");
        reveal_strlit("2");
        reveal_strlit("3");
        reveal_strlit("4");
        reveal_strlit("5");
        reveal_strlit("6");
        reveal_strlit("7");
        reveal_strlit("8");
        reveal_strlit("9");
    }
    if d == 0 { "0" }
    else if d == 1 { "1" }
    else if d == 2 { "2" }
    else if d == 3 { "3" }
    else if d == 4 { "4" }
    else if d == 5 { "5" }
    else if d == 6 { "6" }
    else if d == 7 { "7" }
    else if d == 8 { "8" }
    else { "9" }
}

/// The decimal notation of an unsigned number, as `{}` prints it.
pub fn u64_text(n: u64) -> (res: String)
    ensures
        res@ == decimal(n as nat),
    decreases n,
{
    if n < 10 {
        String::from_str(digit_str(n))
    } else {
        let mut s = u64_text(n / 10);
        s.append(digit_str(n % 10));
        s
    }
}

/// The decimal notation of a signed number, as `{}` prints it.
pub fn i64_text(n: i64) -> (res: String)
    ensures
        res@ == signed_decimal(n as int),
{
    if n < 0 {
        let magnitude: u64 = ((-(n + 1)) as u64) + 1;
        let digits = u64_text(magnitude);
        let mut s = String::from_str("-");
        proof { reveal_strlit("-"); }
        s.append(digits.as_str());
        s
    } else {
        u64_text(n as u64)
    }
}

// ---------------------------------------------------------------------------
// Padding
// ---------------------------------------------------------------------------

/// `n` space characters.
pub open spec fn spaces(n: nat) -> Seq<char> {
    Seq::new(n, |i: int| ' ')
}

/// Left alignment in a field of `width` characters, as `{:<width}` does it:
/// spaces are added after the text until it is `width` characters long.
pub open spec fn pad_right(s: Seq<char>, width: nat) -> Seq<char> {
    if s.len() >= width {
        s
    } else {
        s + spaces((width - s.len()) as nat)
    }
}

/// Appends `n` spaces to `s`.
fn push_spaces(s: &mut String, n: usize)
    ensures
        final(s)@ == old(s)@ + spaces(n as nat),
{
    let mut i: usize = 0;
    while i < n
        invariant
            i <= n,
            s@ == old(s)@ + spaces(i as nat),
        decreases n - i,
    {
        proof { reveal_strlit(" "); }
        s.append(" ");
        assert(s@ =~= old(s)@ + spaces((i + 1) as nat));
        i = i + 1;
    }
}

/// `s` left-aligned in a field of `width` characters.
pub fn pad_text(s: &str, width: usize) -> (res: String)
    ensures
        res@ == pad_right(s@, width as nat),
{
    let len = s.unicode_len();
    let mut res = s.to_string();
    proof { vstd::string::to_string_from_display_ensures_for_str(s, res); }
    if len < width {
        push_spaces(&mut res, width - len);
    }
    res
}

// ---------------------------------------------------------------------------
// Styles and spans
// ---------------------------------------------------------------------------

/// How a piece of output is shown on a terminal that takes colours.
#[derive(Clone, Copy, Debug, PartialEq, Eq, Structural)]
pub enum Style {
    Plain,
    Bold,
    Dimmed,
    Red,
    Green,
    Yellow,
    Cyan,
}

/// The ANSI parameter that selects a style.
pub open spec fn style_code(style: Style) -> Seq<char> {
    match style {
        Style::Plain => seq![],
        Style::Bold => seq!['1'],
        Style::Dimmed => seq!['2'],
        Style::Red => seq!['3', '1'],
        Style::Green => seq!['3', '2'],
        Style::Yellow => seq!['3', '3'],
        Style::Cyan => seq!['3', '6'],
    }
}

/// The escape sequence that switches a style on.
pub open spec fn style_open(style: Style) -> Seq<char> {
    seq!['\x1b', '['] + style_code(style) + seq!['m']
}

/// The escape sequence that switches every style off.
pub open spec fn style_reset() -> Seq<char> {
    seq!['\x1b', '[', '0', 'm']
}

/// `s` with `open` inserted after every reset sequence in it, so that a reset
/// inside the text does not end the style of the text around it.
pub open spec fn escape_resets(s: Seq<char>, open: Seq<char>) -> Seq<char>
    decreases s.len(),
{
    if s.len() == 0 {
        s
    } else if s.len() >= 4 && s.take(4) == style_reset() {
        style_reset() + open + escape_resets(s.skip(4), open)
    } else {
        seq![s[0]] + escape_resets(s.skip(1), open)
    }
}

/// `s` shown in `style` on a terminal that takes colours.
pub open spec fn styled(style: Style, s: Seq<char>) -> Seq<char> {
    style_open(style) + escape_resets(s, style_open(style)) + style_reset()
}

/// Whether `out` is what the colouring library gives for `s` in `style`:
/// the text itself where colours are off, else the text wrapped in escapes.
pub open spec fn painted_as(style: Style, s: Seq<char>, out: Seq<char>) -> bool {
    out == s || out == styled(style, s)
}

/// Whether a text holds no escape character.
pub open spec fn no_escape(s: Seq<char>) -> bool {
    forall|i: int| 0 <= i < s.len() ==> s[i] != '\x1b'
}

/// One step of reading a text for its style sequences (`ESC [` ... `m`):
/// what a character leaves visible, and the state after it. State 0 is
/// outside a sequence, 1 just after an escape character, 2 inside `ESC [`.
pub open spec fn strip_step(c: char, st: nat) -> (Seq<char>, nat) {
    if st == 0 {
        if c == '\x1b' { (seq![], 1) } else { (seq![c], 0) }
    } else if st == 1 {
        if c == '[' {
            (seq![], 2)
        } else if c == '\x1b' {
            (seq!['\x1b'], 1)
        } else {
            (seq!['\x1b', c], 0)
        }
    } else {
        if c == 'm' { (seq![], 0) } else { (seq![], 2) }
    }
}

/// What stays visible of `s` read from state `st`.
pub open spec fn strip_from(s: Seq<char>, st: nat) -> Seq<char>
    decreases s.len(),
{
    if s.len() == 0 {
        seq![]
    } else {
        strip_step(s[0], st).0 + strip_from(s.drop_first(), strip_step(s[0], st).1)
    }
}

/// The state after reading `s` from state `st`.
pub open spec fn state_after(s: Seq<char>, st: nat) -> nat
    decreases s.len(),
{
    if s.len() == 0 {
        st
    } else {
        state_after(s.drop_first(), strip_step(s[0], st).1)
    }
}

/// `s` with its style sequences removed: the text a terminal shows.
pub open spec fn strip_styles(s: Seq<char>) -> Seq<char> {
    strip_from(s, 0)
}

/// A piece of a line: a text, its style, and the width of the field that
/// the (possibly coloured) text is left-aligned in; width 0 means no field.
pub struct Span {
    pub text: String,
    pub style: Style,
    pub width: usize,
}

/// The mathematical value of a [`Span`].
pub struct SpanView {
    pub text: Seq<char>,
    pub style: Style,
    pub width: nat,
}

impl View for Span {
    type V = SpanView;

    open spec fn view(&self) -> SpanView {
        SpanView { text: self.text@, style: self.style, width: self.width as nat }
    }
}

/// A span of plain text.
pub open spec fn plain(t: Seq<char>) -> SpanView {
    SpanView { text: t, style: Style::Plain, width: 0 }
}

/// A span of text in a style.
pub open spec fn in_style(t: Seq<char>, style: Style) -> SpanView {
    SpanView { text: t, style: style, width: 0 }
}

/// A span of text in a style, the coloured text left-aligned in a field.
pub open spec fn in_field(t: Seq<char>, style: Style, width: nat) -> SpanView {
    SpanView { text: t, style: style, width: width }
}

/// What a span prints as, where `coloured` says whether colours were on.
pub open spec fn span_outcome(sp: SpanView, coloured: bool) -> Seq<char> {
    pad_right(
        if coloured && sp.style != Style::Plain { styled(sp.style, sp.text) } else { sp.text },
        sp.width,
    )
}

/// What a sequence of spans prints as, one colour decision per span.
pub open spec fn line_outcome(spans: Seq<SpanView>, coloured: Seq<bool>) -> Seq<char>
    decreases spans.len(),
{
    if spans.len() == 0 {
        seq![]
    } else {
        line_outcome(spans.drop_last(), coloured.drop_last())
            + span_outcome(spans.last(), coloured.last())
    }
}

/// The text of a sequence of spans with colours off.
pub open spec fn line_text(spans: Seq<SpanView>) -> Seq<char>
    decreases spans.len(),
{
    if spans.len() == 0 {
        seq![]
    } else {
        line_text(spans.drop_last()) + pad_right(spans.last().text, spans.last().width)
    }
}

/// One line of output.
pub struct Line {
    pub spans: Vec<Span>,
}

impl View for Line {
    type V = Seq<SpanView>;

    open spec fn view(&self) -> Seq<SpanView> {
        self.spans@.map_values(|sp: Span| sp@)
    }
}

/// The values of a sequence of lines.
pub open spec fn lines_view(lines: Seq<Line>) -> Seq<Seq<SpanView>> {
    lines.map_values(|l: Line| l@)
}

} // verus!

verus! {

// ---------------------------------------------------------------------------
// Comparing and cutting text
// ---------------------------------------------------------------------------

/// Whether two texts are equal.
pub fn str_eq(a: &str, b: &str) -> (res: bool)
    ensures
        res == (a@ == b@),
{
    let n = a.unicode_len();
    if n != b.unicode_len() {
        return false;
    }
    let mut i: usize = 0;
    while i < n
        invariant
            n == a@.len(),
            n == b@.len(),
            i <= n,
            forall|j: int| 0 <= j < i ==> a@[j] == b@[j],
        decreases n - i,
    {
        if a.get_char(i) != b.get_char(i) {
            return false;
        }
        i = i + 1;
    }
    assert(a@ =~= b@);
    true
}

/// Whether `s` begins with `prefix`.
pub fn starts_with(s: &str, prefix: &str) -> (res: bool)
    ensures
        res == (prefix@.len() <= s@.len() && s@.take(prefix@.len() as int) == prefix@),
{
    let n = prefix.unicode_len();
    if n > s.unicode_len() {
        return false;
    }
    let mut i: usize = 0;
    while i < n
        invariant
            n == prefix@.len(),
            n <= s@.len(),
            i <= n,
            forall|j: int| 0 <= j < i ==> s@[j] == prefix@[j],
        decreases n - i,
    {
        if s.get_char(i) != prefix.get_char(i) {
            assert(s@.take(n as int)[i as int] != prefix@[i as int]);
            return false;
        }
        i = i + 1;
    }
    assert(s@.take(n as int) =~= prefix@);
    true
}

/// The text made of the first `n` bytes of the UTF-8 encoding of `s`.
pub open spec fn byte_prefix(s: Seq<char>, n: nat) -> Seq<char> {
    vstd::utf8::decode_utf8(vstd::utf8::encode_utf8(s).take(n as int))
}

/// Whether the first `n` bytes of `s` end on a character boundary, so that
/// `&s[..n]` does not panic.
pub open spec fn cuts_at_boundary(s: Seq<char>, n: nat) -> bool {
    vstd::utf8::is_char_boundary(vstd::utf8::encode_utf8(s), n as int)
}

/// `&s[..n]`: the first `n` bytes of `s`.
pub fn prefix_bytes(s: &str, n: usize) -> (res: String)
    requires
        cuts_at_boundary(s@, n as nat),
    ensures
        res@ == byte_prefix(s@, n as nat),
{
    let (head, _) = s.split_at(n);
    proof {
        vstd::utf8::encode_utf8_decode_utf8(head@);
        assert(vstd::utf8::encode_utf8(head@) =~= vstd::utf8::encode_utf8(s@).take(n as int));
    }
    let res = head.to_string();
    proof { vstd::string::to_string_from_display_ensures_for_str(head, res); }
    res
}

/// Whether `&s[..n]` would not panic.
pub fn is_cut_at_boundary(s: &str, n: usize) -> (res: bool)
    ensures
        res == cuts_at_boundary(s@, n as nat),
{
    s.is_char_boundary(n)
}

/// The number of bytes of a character in UTF-8.
pub open spec fn char_width(c: char) -> nat {
    vstd::utf8::encode_scalar(c as u32).len()
}

/// How many characters from the front of `s` fit, whole, in `n` bytes.
pub open spec fn chars_within(s: Seq<char>, n: nat) -> nat
    decreases s.len(),
{
    if s.len() == 0 {
        0
    } else if char_width(s[0]) <= n {
        1 + chars_within(s.drop_first(), (n - char_width(s[0])) as nat)
    } else {
        0
    }
}

/// The longest prefix of `s` whose UTF-8 form takes at most `n` bytes: a
/// cut after `n` bytes moved back to the last character boundary.
pub open spec fn prefix_within(s: Seq<char>, n: nat) -> Seq<char> {
    s.take(chars_within(s, n) as int)
}

fn char_width_of(c: char) -> (res: usize)
    ensures
        res == char_width(c),
{
    proof { vstd::utf8::char_is_scalar(c); }
    let v = c as u32;
    if v <= 0x7F {
        1
    } else if v <= 0x7FF {
        2
    } else if v <= 0xFFFF {
        3
    } else {
        4
    }
}

/// The longest prefix of `s` of at most `n` bytes that ends on a character
/// boundary.
pub fn prefix_within_bytes(s: &str, n: usize) -> (res: &str)
    ensures
        res@ == prefix_within(s@, n as nat),
{
    let len = s.unicode_len();
    let mut i: usize = 0;
    let mut left: usize = n;
    let mut full = false;
    proof { assert(s@.skip(0) =~= s@); }
    while i < len && !full
        invariant
            len == s@.len(),
            i <= len,
            chars_within(s@, n as nat) == i + chars_within(s@.skip(i as int), left as nat),
            full ==> chars_within(s@.skip(i as int), left as nat) == 0,
        decreases len - i + (if full { 0int } else { 1int }),
    {
        let w = char_width_of(s.get_char(i));
        proof { assert(s@.skip(i as int).drop_first() =~= s@.skip(i + 1)); }
        if w > left {
            full = true;
        } else {
            left = left - w;
            i = i + 1;
        }
    }
    s.substring_char(0, i)
}

} // verus!

verus! {

/// Appends a line to a list of lines.
pub fn push_line(lines: &mut Vec<Line>, l: Line)
    ensures
        lines_view(final(lines)@) == lines_view(old(lines)@).push(l@),
{
    let ghost v = l@;
    lines.push(l);
    assert(lines_view(lines@) =~= lines_view(old(lines)@).push(v));
}

/// A span of `text` in `style`, left-aligned in a field of `width`.
pub fn span(text: &str, style: Style, width: usize) -> (res: Span)
    ensures
        res@ == in_field(text@, style, width as nat),
{
    let t = text.to_string();
    proof { vstd::string::to_string_from_display_ensures_for_str(text, t); }
    Span { text: t, style, width }
}

/// A span that takes ownership of its text.
pub fn span_of(text: String, style: Style, width: usize) -> (res: Span)
    ensures
        res@ == in_field(text@, style, width as nat),
{
    Span { text, style, width }
}

/// A line with a label and a value, both plain.
pub open spec fn labelled(label: Seq<char>, value: Seq<char>) -> Seq<SpanView> {
    seq![plain(label), plain(value)]
}

/// A labelled line when the value is present, no line otherwise.
pub open spec fn labelled_opt(label: Seq<char>, value: Option<Seq<char>>) -> Seq<Seq<SpanView>> {
    match value {
        Some(v) => seq![labelled(label, v)],
        None => seq![],
    }
}

/// A line of one span of text in a style.
pub open spec fn single(t: Seq<char>, style: Style) -> Seq<SpanView> {
    seq![in_style(t, style)]
}

/// A line with a label and a value.
pub fn label_line(label: &str, value: String) -> (res: Line)
    ensures
        res@ == labelled(label@, value@),
{
    let l = Line { spans: vec![span(label, Style::Plain, 0), span_of(value, Style::Plain, 0)] };
    assert(l@ =~= labelled(label@, value@));
    l
}

/// A line of one span.
pub fn single_line(t: &str, style: Style) -> (res: Line)
    ensures
        res@ == single(t@, style),
{
    let l = Line { spans: vec![span(t, style, 0)] };
    assert(l@ =~= single(t@, style));
    l
}

/// Appends a labelled line when the value is present.
pub fn push_labelled_opt(lines: &mut Vec<Line>, label: &str, value: &Option<String>)
    ensures
        lines_view(final(lines)@) == lines_view(old(lines)@) + labelled_opt(label@, value.deep_view()),
{
    match value {
        Some(v) => {
            push_line(lines, label_line(label, v.clone()));
            assert(lines_view(lines@) =~= lines_view(old(lines)@) + labelled_opt(label@, value.deep_view()));
        },
        None => {
            assert(lines_view(lines@) =~= lines_view(old(lines)@) + labelled_opt(label@, value.deep_view()));
        },
    }
}

} // verus!

verus! {

/// A labelled line with a number when it is present, no line otherwise.
pub open spec fn number_opt(label: Seq<char>, value: Option<u64>) -> Seq<Seq<SpanView>> {
    match value {
        Some(v) => seq![labelled(label, decimal(v as nat))],
        None => seq![],
    }
}

/// Appends a labelled line with a number when it is present.
pub fn push_number_opt(lines: &mut Vec<Line>, label: &str, value: Option<u64>)
    ensures
        lines_view(final(lines)@) == lines_view(old(lines)@) + number_opt(label@, value),
{
    match value {
        Some(v) => {
            push_line(lines, label_line(label, u64_text(v)));
        },
        None => {},
    }
    assert(lines_view(lines@) =~= lines_view(old(lines)@) + number_opt(label@, value));
}

} // verus!

verus! {

/// Cutting a text after `n` bytes at a character boundary keeps exactly `n`
/// bytes, and what it keeps is a prefix of the text.
pub proof fn lemma_byte_prefix(s: Seq<char>, n: nat)
    requires
        cuts_at_boundary(s, n),
    ensures
        vstd::utf8::encode_utf8(byte_prefix(s, n)).len() == n,
        n <= vstd::utf8::encode_utf8(s).len(),
        byte_prefix(s, n).len() <= s.len(),
        s.take(byte_prefix(s, n).len() as int) == byte_prefix(s, n),
{
    let bytes = vstd::utf8::encode_utf8(s);
    vstd::utf8::encode_utf8_valid_utf8(s);
    if n > bytes.len() {
        assert(!vstd::utf8::is_char_boundary(bytes, n as int));
    }
    vstd::utf8::valid_utf8_split(bytes, n as int);
    assert(bytes.take(n as int) =~= bytes.subrange(0, n as int));
    vstd::utf8::decode_utf8_encode_utf8(bytes.take(n as int));
    vstd::utf8::decode_utf8_split(bytes, n as int);
    vstd::utf8::encode_utf8_decode_utf8(s);
    let head = byte_prefix(s, n);
    let tail = vstd::utf8::decode_utf8(bytes.subrange(n as int, bytes.len() as int));
    assert(s == head + tail);
    assert(s.take(head.len() as int) =~= head);
}

/// The first character of a non-empty text leads its UTF-8 form.
proof fn lemma_encode_first(s: Seq<char>)
    requires
        s.len() > 0,
    ensures
        vstd::utf8::encode_utf8(s) == vstd::utf8::encode_scalar(s[0] as u32)
            + vstd::utf8::encode_utf8(s.drop_first()),
{
}

/// What `prefix_within` keeps fits in `n` bytes, and it is the longest
/// prefix that does: one more character would not fit.
pub proof fn lemma_prefix_within(s: Seq<char>, n: nat)
    ensures
        chars_within(s, n) <= s.len(),
        vstd::utf8::encode_utf8(prefix_within(s, n)).len() <= n,
        chars_within(s, n) < s.len() ==> vstd::utf8::encode_utf8(
            s.take(chars_within(s, n) + 1 as int),
        ).len() > n,
        vstd::utf8::encode_utf8(s).len() <= n ==> prefix_within(s, n) == s,
    decreases s.len(),
{
    let k = chars_within(s, n);
    if s.len() == 0 {
        assert(prefix_within(s, n) =~= seq![]);
    } else {
        let w = char_width(s[0]);
        let rest = s.drop_first();
        lemma_encode_first(s);
        if w <= n {
            let m = (n - w) as nat;
            lemma_prefix_within(rest, m);
            let k1 = chars_within(rest, m);
            assert(s.take(k as int).drop_first() =~= rest.take(k1 as int));
            lemma_encode_first(s.take(k as int));
            if k < s.len() {
                assert(s.take(k + 1 as int).drop_first() =~= rest.take(k1 + 1 as int));
                lemma_encode_first(s.take(k + 1 as int));
            }
            if vstd::utf8::encode_utf8(s).len() <= n {
                assert(rest.take(k1 as int) == rest);
                assert(s.take(k as int) =~= s);
            }
        } else {
            assert(s.take(0) =~= seq![]);
            assert(s.take(1).drop_first() =~= seq![]);
            lemma_encode_first(s.take(1));
            assert(vstd::utf8::encode_utf8(s).len() >= w);
        }
    }
}

/// Two texts whose UTF-8 forms agree on their first `n` bytes have the same
/// longest prefix within `n` bytes.
pub proof fn lemma_prefix_within_first_bytes(s1: Seq<char>, s2: Seq<char>, n: nat)
    requires
        n <= vstd::utf8::encode_utf8(s1).len(),
        n <= vstd::utf8::encode_utf8(s2).len(),
        vstd::utf8::encode_utf8(s1).take(n as int) == vstd::utf8::encode_utf8(s2).take(n as int),
    ensures
        chars_within(s1, n) == chars_within(s2, n),
        prefix_within(s1, n) == prefix_within(s2, n),
    decreases s1.len(),
{
    let b1 = vstd::utf8::encode_utf8(s1);
    let b2 = vstd::utf8::encode_utf8(s2);
    if n == 0 {
        if s1.len() > 0 {
            lemma_encode_first(s1);
        }
        if s2.len() > 0 {
            lemma_encode_first(s2);
        }
        assert(prefix_within(s1, n) =~= prefix_within(s2, n));
    } else {
        assert(s1.len() > 0);
        assert(s2.len() > 0);
        assert(b1[0] == b1.take(n as int)[0]);
        assert(b2[0] == b2.take(n as int)[0]);
        vstd::utf8::encode_utf8_first_scalar(s1);
        vstd::utf8::encode_utf8_first_scalar(s2);
        lemma_encode_first(s1);
        lemma_encode_first(s2);
        let w = char_width(s1[0]);
        assert(char_width(s2[0]) == w);
        if w <= n {
            assert forall|i: int| 0 <= i < w implies b1[i] == b2[i] by {
                assert(b1[i] == b1.take(n as int)[i]);
                assert(b2[i] == b2.take(n as int)[i]);
            }
            assert(vstd::utf8::decode_first_scalar(b1) == vstd::utf8::decode_first_scalar(b2));
            vstd::utf8::char_u32_cast(s1[0], s1[0] as u32);
            vstd::utf8::char_u32_cast(s2[0], s2[0] as u32);
            assert(s1[0] == s2[0]);
            let r1 = s1.drop_first();
            let r2 = s2.drop_first();
            let m = (n - w) as nat;
            assert(vstd::utf8::encode_utf8(r1) =~= b1.skip(w as int));
            assert(vstd::utf8::encode_utf8(r2) =~= b2.skip(w as int));
            assert(vstd::utf8::encode_utf8(r1).take(m as int) =~= vstd::utf8::encode_utf8(r2).take(m as int)) by {
                assert forall|i: int| 0 <= i < m implies vstd::utf8::encode_utf8(r1)[i] == vstd::utf8::encode_utf8(r2)[i] by {
                    assert(b1[w + i] == b1.take(n as int)[w + i]);
                    assert(b2[w + i] == b2.take(n as int)[w + i]);
                }
            }
            lemma_prefix_within_first_bytes(r1, r2, m);
            let k = chars_within(s1, n);
            lemma_prefix_within(s1, n);
            lemma_prefix_within(s2, n);
            assert(s1.take(k as int) =~= seq![s1[0]] + r1.take(k - 1 as int));
            assert(s2.take(k as int) =~= seq![s2[0]] + r2.take(k - 1 as int));
        } else {
            assert(prefix_within(s1, n) =~= prefix_within(s2, n));
        }
    }
}

/// Reading a text in two parts reads each in turn.
pub proof fn lemma_strip_concat(a: Seq<char>, b: Seq<char>, st: nat)
    ensures
        strip_from(a + b, st) == strip_from(a, st) + strip_from(b, state_after(a, st)),
        state_after(a + b, st) == state_after(b, state_after(a, st)),
    decreases a.len(),
{
    if a.len() == 0 {
        assert(a + b =~= b);
    } else {
        assert((a + b).drop_first() =~= a.drop_first() + b);
        lemma_strip_concat(a.drop_first(), b, strip_step(a[0], st).1);
        assert(strip_from(a + b, st) =~= strip_from(a, st) + strip_from(b, state_after(a, st)));
    }
}

/// A text without escapes is shown as it is.
pub proof fn lemma_strip_no_escape(s: Seq<char>)
    requires
        no_escape(s),
    ensures
        strip_from(s, 0) == s,
        state_after(s, 0) == 0,
    decreases s.len(),
{
    if s.len() > 0 {
        assert(s[0] != '\x1b');
        lemma_strip_no_escape(s.drop_first());
        assert(s =~= seq![s[0]] + s.drop_first());
    }
}

/// A style sequence leaves nothing visible.
proof fn lemma_strip_sequence(code: Seq<char>)
    requires
        forall|i: int| 0 <= i < code.len() ==> code[i] != 'm',
    ensures
        strip_from(seq!['\x1b', '['] + code + seq!['m'], 0) == Seq::<char>::empty(),
        state_after(seq!['\x1b', '['] + code + seq!['m'], 0) == 0,
{
    let inner = code + seq!['m'];
    lemma_strip_inside(code);
    let s = seq!['\x1b', '['] + inner;
    assert(s =~= seq!['\x1b', '['] + code + seq!['m']);
    assert(s.drop_first() =~= seq!['['] + inner);
    assert(s.drop_first().drop_first() =~= inner);
    assert(s[0] == '\x1b');
    assert(s.drop_first()[0] == '[');
    assert(strip_from(s.drop_first(), 1) =~= Seq::<char>::empty());
    assert(strip_from(s, 0) =~= Seq::<char>::empty());
    assert(state_after(s.drop_first(), 1) == 0);
}

/// Inside a sequence, everything up to and including the final `m` is
/// hidden.
proof fn lemma_strip_inside(code: Seq<char>)
    requires
        forall|i: int| 0 <= i < code.len() ==> code[i] != 'm',
    ensures
        strip_from(code + seq!['m'], 2) == Seq::<char>::empty(),
        state_after(code + seq!['m'], 2) == 0,
    decreases code.len(),
{
    let s = code + seq!['m'];
    if code.len() == 0 {
        assert(s[0] == 'm');
        assert(s.drop_first() =~= Seq::<char>::empty());
        assert(strip_from(s.drop_first(), 0) =~= Seq::<char>::empty());
        assert(state_after(s.drop_first(), 0) == 0);
        assert(strip_from(s, 2) =~= Seq::<char>::empty());
    } else {
        assert(s[0] == code[0]);
        assert(s.drop_first() =~= code.drop_first() + seq!['m']);
        lemma_strip_inside(code.drop_first());
        assert(strip_from(s, 2) =~= Seq::<char>::empty());
    }
}

/// `escape_resets` leaves a text without escapes unchanged.
proof fn lemma_escape_resets_no_escape(s: Seq<char>, open: Seq<char>)
    requires
        no_escape(s),
    ensures
        escape_resets(s, open) == s,
    decreases s.len(),
{
    if s.len() > 0 {
        assert(s[0] != '\x1b');
        if s.len() >= 4 {
            assert(s.take(4)[0] == s[0]);
        }
        lemma_escape_resets_no_escape(s.skip(1), open);
        assert(s =~= seq![s[0]] + s.skip(1));
    }
}

/// A text painted in a style, its style sequences removed, reads as the
/// text, whether colours were on or off, where the text itself holds no
/// escape character.
pub proof fn lemma_strip_painted(style: Style, s: Seq<char>, out: Seq<char>)
    requires
        painted_as(style, s, out),
        no_escape(s),
    ensures
        strip_styles(out) == s,
        state_after(out, 0) == 0,
{
    lemma_strip_no_escape(s);
    if out != s {
        let open = style_open(style);
        lemma_escape_resets_no_escape(s, open);
        lemma_strip_sequence(style_code(style));
        lemma_strip_sequence(seq!['0']);
        assert(style_reset() =~= seq!['\x1b', '['] + seq!['0'] + seq!['m']);
        lemma_strip_concat(open, s + style_reset(), 0);
        lemma_strip_concat(s, style_reset(), 0);
        assert(out =~= open + (s + style_reset()));
        assert(strip_from(s, 0) + Seq::<char>::empty() =~= s);
    }
}

/// Whether a line's field widths hold whatever colours do: each span is
/// plain, or is styled with no field around it (a styled text that must be
/// aligned is padded before it is styled), and no text holds an escape.
pub open spec fn aligns_in_colour(spans: Seq<SpanView>) -> bool {
    forall|i: int|
        0 <= i < spans.len() ==> no_escape(#[trigger] spans[i].text) && (spans[i].style
            == Style::Plain || spans[i].width == 0)
}

/// A line whose fields align in colour reads, its style sequences removed,
/// as its plain text, whichever spans were coloured: its columns line up
/// with colours on as with colours off.
pub proof fn lemma_strip_line(spans: Seq<SpanView>, coloured: Seq<bool>)
    requires
        coloured.len() == spans.len(),
        aligns_in_colour(spans),
    ensures
        strip_styles(line_outcome(spans, coloured)) == line_text(spans),
        state_after(line_outcome(spans, coloured), 0) == 0,
    decreases spans.len(),
{
    if spans.len() == 0 {
        assert(strip_styles(line_outcome(spans, coloured)) =~= line_text(spans));
    } else {
        let rest = spans.drop_last();
        let sp = spans.last();
        assert(aligns_in_colour(rest)) by {
            assert forall|i: int| 0 <= i < rest.len() implies no_escape(#[trigger] rest[i].text)
                && (rest[i].style == Style::Plain || rest[i].width == 0) by {
                assert(rest[i] == spans[i]);
                assert(no_escape(spans[i].text));
            }
        }
        assert(no_escape(spans[spans.len() - 1].text));
        lemma_strip_line(rest, coloured.drop_last());
        let a = line_outcome(rest, coloured.drop_last());
        let b = span_outcome(sp, coloured.last());
        lemma_strip_concat(a, b, 0);
        let t = pad_right(sp.text, sp.width);
        if coloured.last() && sp.style != Style::Plain {
            assert(sp.width == 0);
            lemma_strip_painted(sp.style, sp.text, styled(sp.style, sp.text));
            assert(b == styled(sp.style, sp.text));
            assert(t == sp.text);
        } else {
            assert(b == t);
            assert(no_escape(t)) by {
                if sp.text.len() < sp.width {
                    assert forall|i: int| 0 <= i < t.len() implies t[i] != '\x1b' by {
                        if i >= sp.text.len() {
                            assert(t[i] == ' ');
                        } else {
                            assert(t[i] == sp.text[i]);
                        }
                    }
                }
            }
            lemma_strip_no_escape(t);
        }
    }
}

/// The UTF-8 form of two texts one after the other is their two forms one
/// after the other.
pub proof fn lemma_encode_concat(a: Seq<char>, b: Seq<char>)
    ensures
        vstd::utf8::encode_utf8(a + b) == vstd::utf8::encode_utf8(a) + vstd::utf8::encode_utf8(b),
    decreases a.len(),
{
    if a.len() == 0 {
        assert(a + b =~= b);
        assert(vstd::utf8::encode_utf8(a) + vstd::utf8::encode_utf8(b) =~= vstd::utf8::encode_utf8(b));
    } else {
        assert((a + b).drop_first() =~= a.drop_first() + b);
        lemma_encode_concat(a.drop_first(), b);
        lemma_encode_first(a);
        lemma_encode_first(a + b);
        assert(vstd::utf8::encode_utf8(a + b) =~= vstd::utf8::encode_utf8(a) + vstd::utf8::encode_utf8(b));
    }
}

/// Where one text ends and the next begins is a character boundary, and
/// cutting there gives the first text back.
pub proof fn lemma_cut_at_join(a: Seq<char>, b: Seq<char>)
    ensures
        cuts_at_boundary(a + b, vstd::utf8::encode_utf8(a).len()),
        byte_prefix(a + b, vstd::utf8::encode_utf8(a).len()) == a,
    decreases a.len(),
{
    let n = vstd::utf8::encode_utf8(a).len();
    lemma_encode_concat(a, b);
    vstd::utf8::encode_utf8_valid_utf8(a + b);
    if a.len() > 0 {
        let bytes = vstd::utf8::encode_utf8(a + b);
        assert((a + b).drop_first() =~= a.drop_first() + b);
        assert((a + b)[0] == a[0]);
        vstd::utf8::encode_utf8_first_scalar(a + b);
        lemma_encode_first(a + b);
        lemma_encode_first(a);
        let w = vstd::utf8::encode_scalar(a[0] as u32).len();
        assert(vstd::utf8::pop_first_scalar(bytes) =~= vstd::utf8::encode_utf8(a.drop_first() + b));
        lemma_cut_at_join(a.drop_first(), b);
        assert(n >= w);
    }
    assert(vstd::utf8::encode_utf8(a + b).take(n as int) =~= vstd::utf8::encode_utf8(a));
    vstd::utf8::encode_utf8_decode_utf8(a);
}

/// Padding adds no escape character.
pub proof fn lemma_pad_no_escape(s: Seq<char>, width: nat)
    requires
        no_escape(s),
    ensures
        no_escape(pad_right(s, width)),
{
    let t = pad_right(s, width);
    assert forall|i: int| 0 <= i < t.len() implies t[i] != '\x1b' by {
        if i >= s.len() {
            assert(t[i] == ' ');
        } else {
            assert(t[i] == s[i]);
        }
    }
}

/// With colours off, a line prints as its plain text.
pub proof fn lemma_colours_off_is_plain_text(spans: Seq<SpanView>)
    ensures
        line_outcome(spans, Seq::new(spans.len(), |i: int| false)) == line_text(spans),
    decreases spans.len(),
{
    if spans.len() > 0 {
        let c = Seq::new(spans.len(), |i: int| false);
        assert(c.drop_last() =~= Seq::new(spans.drop_last().len(), |i: int| false));
        lemma_colours_off_is_plain_text(spans.drop_last());
    }
}

} // verus!

verus! {

/// Whether a character is white space (the Unicode `White_Space`
/// property, which `char::is_whitespace` tests).
pub open spec fn is_space(c: char) -> bool {
    let u = c as u32;
    (0x9 <= u <= 0xd) || u == 0x20 || u == 0x85 || u == 0xa0 || u == 0x1680 || (0x2000 <= u
        <= 0x200a) || u == 0x2028 || u == 0x2029 || u == 0x202f || u == 0x205f || u == 0x3000
}

fn is_space_exec(c: char) -> (res: bool)
    ensures
        res == is_space(c),
{
    let u = c as u32;
    (0x9 <= u && u <= 0xd) || u == 0x20 || u == 0x85 || u == 0xa0 || u == 0x1680 || (0x2000 <= u
        && u <= 0x200a) || u == 0x2028 || u == 0x2029 || u == 0x202f || u == 0x205f || u == 0x3000
}

/// `s` without the white space at its end.
pub open spec fn trim_end(s: Seq<char>) -> Seq<char>
    decreases s.len(),
{
    if s.len() > 0 && is_space(s.last()) {
        trim_end(s.drop_last())
    } else {
        s
    }
}

/// `s` without the white space at its start.
pub open spec fn trim_start(s: Seq<char>) -> Seq<char>
    decreases s.len(),
{
    if s.len() > 0 && is_space(s[0]) {
        trim_start(s.drop_first())
    } else {
        s
    }
}

/// `s` without white space at either end, as `str::trim` gives it.
pub open spec fn trimmed(s: Seq<char>) -> Seq<char> {
    trim_start(trim_end(s))
}

/// `s` without white space at either end.
pub fn trim_whitespace(s: &str) -> (res: String)
    ensures
        res@ == trimmed(s@),
{
    let mut j = s.unicode_len();
    assert(s@.take(j as int) =~= s@);
    while j > 0 && is_space_exec(s.get_char(j - 1))
        invariant
            j <= s@.len(),
            trim_end(s@) == trim_end(s@.take(j as int)),
        decreases j,
    {
        assert(s@.take(j as int).drop_last() =~= s@.take(j - 1));
        j = j - 1;
    }
    proof {
        if j > 0 {
            assert(s@.take(j as int).last() == s@[j - 1]);
        }
    }
    let mut i: usize = 0;
    assert(s@.subrange(0, j as int) =~= s@.take(j as int));
    while i < j && is_space_exec(s.get_char(i))
        invariant
            i <= j <= s@.len(),
            trim_end(s@) == s@.take(j as int),
            trim_start(s@.take(j as int)) == trim_start(s@.subrange(i as int, j as int)),
        decreases j - i,
    {
        assert(s@.subrange(i as int, j as int).drop_first() =~= s@.subrange(i + 1, j as int));
        i = i + 1;
    }
    proof {
        if i < j {
            assert(s@.subrange(i as int, j as int)[0] == s@[i as int]);
        }
    }
    let t = s.substring_char(i, j);
    let r = t.to_string();
    proof { vstd::string::to_string_from_display_ensures_for_str(t, r); }
    r
}

} // verus!
