use vstd::prelude::*;

verus! {

// Character-level helpers shared by the filename sanitizer and the
// case-insensitive matcher: an ASCII case fold and a whitespace-collapsing
// rewrite, each specified as a function on sequences of characters.

/// The characters that count as whitespace when filenames are built:
/// the ASCII blank characters.
pub open spec fn is_space(c: char) -> bool {
    c == ' ' || c == '\t' || c == '\n' || c == '\r' || c == '\u{b}' || c == '\u{c}'
}

/// ASCII case fold of one character: 'A' through 'Z' map to 'a' through 'z',
/// every other character is left alone.
pub open spec fn lower_char(c: char) -> char {
    if 'A' <= c && c <= 'Z' {
        ((c as u32) + 32) as char
    } else {
        c
    }
}

/// ASCII upper-casing of one character, the inverse direction of `lower_char`.
pub open spec fn upper_char(c: char) -> char {
    if 'a' <= c && c <= 'z' {
        ((c as u32) - 32) as char
    } else {
        c
    }
}

/// ASCII case fold of a whole string.
pub open spec fn lower_seq(s: Seq<char>) -> Seq<char> {
    s.map_values(|c: char| lower_char(c))
}

/// ASCII upper-casing of a whole string.
pub open spec fn upper_seq(s: Seq<char>) -> Seq<char> {
    s.map_values(|c: char| upper_char(c))
}

/// Folding the case of a character is insensitive to its case: upper-casing
/// first changes nothing about the folded result.
pub proof fn lemma_lower_char_of_upper(c: char)
    ensures
        lower_char(upper_char(c)) == lower_char(c),
{
    if 'a' <= c && c <= 'z' {
        assert(upper_char(c) as u32 == c as u32 - 32);
    }
}

/// Case-folding a whole string is insensitive to upper-casing it first.
pub proof fn lemma_lower_seq_of_upper(s: Seq<char>)
    ensures
        lower_seq(upper_seq(s)) == lower_seq(s),
{
    assert forall|i: int| 0 <= i < s.len() implies #[trigger] lower_char(upper_char(s[i]))
        == lower_char(s[i]) by {
        lemma_lower_char_of_upper(s[i]);
    }
    assert(lower_seq(upper_seq(s)) =~= lower_seq(s));
}

/// What remains of `s` after trimming surrounding whitespace and collapsing
/// every inner run of whitespace to one underscore, given that a word has
/// already `started` and that `pending` whitespace separates it from the next
/// word character.
pub open spec fn collapse_from(s: Seq<char>, started: bool, pending: bool) -> Seq<char>
    decreases s.len(),
{
    if s.len() == 0 {
        Seq::empty()
    } else if is_space(s[0]) {
        collapse_from(s.drop_first(), started, started)
    } else if pending {
        seq!['_', s[0]] + collapse_from(s.drop_first(), true, false)
    } else {
        seq![s[0]] + collapse_from(s.drop_first(), true, false)
    }
}

/// A field of a filename: the field with surrounding whitespace trimmed and
/// every inner run of whitespace replaced by a single underscore.
pub open spec fn sanitize_spec(s: Seq<char>) -> Seq<char> {
    collapse_from(s, false, false)
}

/// Nothing the sanitizer produces is whitespace.
proof fn lemma_collapse_no_space(s: Seq<char>, started: bool, pending: bool, i: int)
    requires
        0 <= i < collapse_from(s, started, pending).len(),
    ensures
        !is_space(collapse_from(s, started, pending)[i]),
    decreases s.len(),
{
    if s.len() == 0 {
    } else if is_space(s[0]) {
        lemma_collapse_no_space(s.drop_first(), started, started, i);
    } else if pending {
        if i >= 2 {
            lemma_collapse_no_space(s.drop_first(), true, false, i - 2);
        }
    } else {
        if i >= 1 {
            lemma_collapse_no_space(s.drop_first(), true, false, i - 1);
        }
    }
}

/// A string without whitespace passes through the sanitizer unchanged.
proof fn lemma_collapse_fixed(s: Seq<char>, started: bool)
    requires
        forall|i: int| 0 <= i < s.len() ==> !is_space(#[trigger] s[i]),
    ensures
        collapse_from(s, started, false) == s,
    decreases s.len(),
{
    if s.len() == 0 {
        assert(collapse_from(s, started, false) =~= s);
    } else {
        lemma_collapse_fixed(s.drop_first(), true);
        assert(collapse_from(s, started, false) =~= s);
    }
}

/// Sanitizing an already-sanitized string is a no-op.
pub proof fn lemma_sanitize_idempotent(s: Seq<char>)
    ensures
        sanitize_spec(sanitize_spec(s)) == sanitize_spec(s),
{
    assert forall|i: int| 0 <= i < sanitize_spec(s).len() implies !is_space(
        #[trigger] sanitize_spec(s)[i],
    ) by {
        lemma_collapse_no_space(s, false, false, i);
    }
    lemma_collapse_fixed(sanitize_spec(s), false);
}

/// Relies on String as FromIterator over char: collecting characters yields
/// the string made of exactly those characters, in order.
#[verifier::external_body]
fn chars_to_string(v: &Vec<char>) -> (r: String)
    ensures
        r@ == v@,
{
    v.iter().copied().collect()
}

/// Relies on char::to_ascii_lowercase: 'A' through 'Z' are mapped to
/// 'a' through 'z' and every other character comes back unchanged.
#[verifier::external_body]
fn ascii_lower(c: char) -> (r: char)
    ensures
        r == lower_char(c),
{
    c.to_ascii_lowercase()
}

/// ASCII case fold of a string.
pub fn to_lowercase(s: &str) -> (r: String)
    ensures
        r@ == lower_seq(s@),
{
    let len = s.unicode_len();
    let mut out: Vec<char> = Vec::new();
    let mut i: usize = 0;
    while i < len
        invariant
            len == s@.len(),
            0 <= i <= len,
            out@ =~= lower_seq(s@.take(i as int)),
        decreases len - i,
    {
        let c = s.get_char(i);
        out.push(ascii_lower(c));
        i = i + 1;
        assert(s@.take(i as int).map_values(|c: char| lower_char(c)) =~= s@.take(
            i as int - 1,
        ).map_values(|c: char| lower_char(c)).push(lower_char(s@[i as int - 1])));
    }
    assert(s@.take(len as int) =~= s@);
    chars_to_string(&out)
}

/// Trim surrounding whitespace and collapse every inner run of whitespace to
/// a single underscore.
pub fn sanitize_component(s: &str) -> (r: String)
    ensures
        r@ == sanitize_spec(s@),
{
    let len = s.unicode_len();
    let mut out: Vec<char> = Vec::new();
    let mut started = false;
    let mut pending = false;
    let mut i: usize = 0;
    proof {
        assert(s@.skip(0) =~= s@);
    }
    while i < len
        invariant
            len == s@.len(),
            0 <= i <= len,
            sanitize_spec(s@) =~= out@ + collapse_from(s@.skip(i as int), started, pending),
        decreases len - i,
    {
        let ghost rest = s@.skip(i as int);
        let ghost prev = out@;
        let ghost st0 = started;
        assert(rest.len() > 0 && rest[0] == s@[i as int]);
        assert(rest.drop_first() =~= s@.skip(i as int + 1));
        let c = s.get_char(i);
        if is_space_exec(c) {
            pending = started;
        } else if pending {
            out.push('_');
            out.push(c);
            started = true;
            pending = false;
            assert(collapse_from(rest, st0, true) == seq!['_', c] + collapse_from(
                s@.skip(i as int + 1),
                true,
                false,
            ));
            assert(out@ + collapse_from(s@.skip(i as int + 1), true, false) =~= prev + (seq![
                '_',
                c,
            ] + collapse_from(s@.skip(i as int + 1), true, false)));
        } else {
            out.push(c);
            started = true;
            assert(collapse_from(rest, st0, false) == seq![c] + collapse_from(
                s@.skip(i as int + 1),
                true,
                false,
            ));
            assert(out@ + collapse_from(s@.skip(i as int + 1), true, false) =~= prev + (seq![c]
                + collapse_from(s@.skip(i as int + 1), true, false)));
        }
        i = i + 1;
    }
    assert(s@.skip(len as int) =~= Seq::<char>::empty());
    assert(out@ + Seq::<char>::empty() =~= out@);
    chars_to_string(&out)
}

/// Whether a character counts as whitespace for filename purposes.
fn is_space_exec(c: char) -> (r: bool)
    ensures
        r == is_space(c),
{
    c == ' ' || c == '\t' || c == '\n' || c == '\r' || c == '\u{b}' || c == '\u{c}'
}

} // verus!
