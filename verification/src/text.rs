//! Character-level building blocks of the line protocol: splitting a line
//! into `|`-separated fields, joining fields back together, and the decimal
//! notation of numbers.
use vstd::prelude::*;

verus! {

/// `std::num::ParseIntError`, the error that `usize::from_str` reports.
#[verifier::external_type_specification]
#[verifier::external_body]
pub struct ExParseIntError(std::num::ParseIntError);

/// `ParseIntError::clone`, which the derived `Clone` of `Error` calls. The
/// error is opaque here, so nothing is claimed of the copy.
pub assume_specification[ <std::num::ParseIntError as Clone>::clone ](
    e: &std::num::ParseIntError,
) -> std::num::ParseIntError;

/// The field separator of the protocol.
pub open spec fn is_bar(c: char) -> bool {
    c == '|'
}

/// No separator occurs in `s`.
pub open spec fn bar_free(s: Seq<char>) -> bool {
    forall|i: int| 0 <= i < s.len() ==> !is_bar(#[trigger] s[i])
}

/// The fields of `s` between separators, in order. There is always at least
/// one field; `k` separators give `k + 1` fields, some of them possibly empty.
pub open spec fn split_bar(s: Seq<char>) -> Seq<Seq<char>>
    decreases s.len(),
{
    if s.len() == 0 {
        seq![Seq::<char>::empty()]
    } else {
        let fields = split_bar(s.drop_last());
        if is_bar(s.last()) {
            fields.push(Seq::<char>::empty())
        } else {
            fields.update(fields.len() - 1, fields.last().push(s.last()))
        }
    }
}

/// The fields `f` written one after the other with a separator between each
/// two of them.
pub open spec fn join_bar(f: Seq<Seq<char>>) -> Seq<char>
    decreases f.len(),
{
    if f.len() == 0 {
        Seq::<char>::empty()
    } else if f.len() == 1 {
        f[0]
    } else {
        join_bar(f.drop_last()) + seq!['|'] + f.last()
    }
}

/// The characters of each field.
pub open spec fn fields_view(f: Seq<Vec<char>>) -> Seq<Seq<char>> {
    f.map_values(|x: Vec<char>| x@)
}

/// An ASCII decimal digit.
pub open spec fn is_digit(c: char) -> bool {
    '0' <= c && c <= '9'
}

pub open spec fn all_digits(s: Seq<char>) -> bool {
    forall|i: int| 0 <= i < s.len() ==> is_digit(#[trigger] s[i])
}

/// The number that a string of decimal digits denotes.
pub open spec fn digits_value(s: Seq<char>) -> nat
    decreases s.len(),
{
    if s.len() == 0 {
        0
    } else {
        digits_value(s.drop_last()) * 10 + (s.last() as int - 48) as nat
    }
}

/// The digit character of `d < 10`.
pub open spec fn digit_char(d: nat) -> char {
    (d + 48) as char
}

/// The shortest decimal notation of `n`, without sign.
pub open spec fn decimal(n: nat) -> Seq<char>
    decreases n,
{
    if n < 10 {
        seq![digit_char(n)]
    } else {
        decimal(n / 10).push(digit_char(n % 10))
    }
}

/// What `usize::from_str` accepts: an optional `+`, then one or more ASCII
/// digits whose value fits in a `usize`.
pub open spec fn usize_field(s: Seq<char>) -> Option<usize> {
    let d = if s.len() > 0 && s[0] == '+' {
        s.drop_first()
    } else {
        s
    };
    if d.len() > 0 && all_digits(d) && digits_value(d) <= usize::MAX {
        Some(digits_value(d) as usize)
    } else {
        None
    }
}

/// Calls `usize::from_str` (through `str::parse`). Its documentation: the
/// string is an optional `+` followed by only ASCII digits, and the value must
/// fit the type; anything else is a `ParseIntError`. The contract claims
/// exactly that: `Ok(v)` when `usize_field` gives `v`, an error when it gives
/// nothing. Which kind of `ParseIntError` comes back is left unsaid.
#[verifier::external_body]
pub(crate) fn parse_usize(s: &str) -> (r: Result<usize, std::num::ParseIntError>)
    ensures
        match r {
            Ok(v) => usize_field(s@) == Some(v),
            Err(_) => usize_field(s@) is None,
        },
{
    s.parse::<usize>()
}

/// Collects characters into a `String` with `FromIterator<&char>`, which
/// appends them in order: the contract claims that the string's characters
/// are those of `v`.
#[verifier::external_body]
pub(crate) fn string_from_chars(v: &Vec<char>) -> (r: String)
    ensures
        r@ == v@,
{
    v.iter().collect()
}

/// The characters of `s`, in order.
pub fn chars_of(s: &str) -> (r: Vec<char>)
    ensures
        r@ == s@,
{
    let mut out: Vec<char> = Vec::new();
    for c in it: s.chars()
        invariant
            out@ == it.seq().take(it.index() as int),
    {
        out.push(c);
    }
    out
}

/// Whether the characters `a` spell the string `lit`.
pub fn chars_eq_str(a: &Vec<char>, lit: &str) -> (r: bool)
    ensures
        r == (a@ == lit@),
{
    let b = chars_of(lit);
    if a.len() != b.len() {
        return false;
    }
    let mut i: usize = 0;
    while i < a.len()
        invariant
            a@.len() == b@.len(),
            b@ == lit@,
            i <= a@.len(),
            forall|j: int| 0 <= j < i ==> a@[j] == b@[j],
        decreases a@.len() - i,
    {
        if a[i] != b[i] {
            return false;
        }
        i += 1;
    }
    assert(a@ =~= b@);
    true
}

pub proof fn lemma_split_bar_nonempty(s: Seq<char>)
    ensures
        split_bar(s).len() >= 1,
    decreases s.len(),
{
    if s.len() > 0 {
        lemma_split_bar_nonempty(s.drop_last());
    }
}

/// Splits `s` at every separator: the result is `split_bar(s@)`.
pub fn split_fields(s: &Vec<char>) -> (r: Vec<Vec<char>>)
    ensures
        fields_view(r@) == split_bar(s@),
        r@.len() >= 1,
{
    let mut fields: Vec<Vec<char>> = Vec::new();
    let mut cur: Vec<char> = Vec::new();
    let mut i: usize = 0;
    assert(s@.take(0) =~= Seq::<char>::empty());
    while i < s.len()
        invariant
            i <= s@.len(),
            fields_view(fields@).push(cur@) =~= split_bar(s@.take(i as int)),
        decreases s@.len() - i,
    {
        let c = s[i];
        let ghost before = s@.take(i as int);
        assert(s@.take(i + 1).drop_last() =~= before);
        let ghost old_fields = fields_view(fields@);
        let ghost old_cur = cur@;
        if c == '|' {
            fields.push(cur);
            cur = Vec::new();
            assert(fields_view(fields@) =~= old_fields.push(old_cur));
        } else {
            cur.push(c);
            assert(fields_view(fields@) =~= old_fields);
        }
        i += 1;
    }
    assert(s@.take(s@.len() as int) =~= s@);
    let ghost old_fields = fields_view(fields@);
    let ghost old_cur = cur@;
    fields.push(cur);
    assert(fields_view(fields@) =~= old_fields.push(old_cur));
    fields
}

/// The fields of `f` from index `k` on, joined: `join_bar` of that suffix.
pub fn join_fields(f: &Vec<Vec<char>>, k: usize) -> (r: Vec<char>)
    requires
        k <= f@.len(),
    ensures
        r@ == join_bar(fields_view(f@).skip(k as int)),
{
    let ghost fv = fields_view(f@);
    let mut out: Vec<char> = Vec::new();
    let mut j: usize = k;
    assert(fv.subrange(k as int, k as int) =~= Seq::<Seq<char>>::empty());
    while j < f.len()
        invariant
            k <= j <= f@.len(),
            fv == fields_view(f@),
            out@ == join_bar(fv.subrange(k as int, j as int)),
        decreases f@.len() - j,
    {
        let ghost prev = out@;
        assert(fv.subrange(k as int, j + 1).drop_last() =~= fv.subrange(k as int, j as int));
        if j > k {
            out.push('|');
        }
        let field = &f[j];
        let mut i: usize = 0;
        let ghost mid = out@;
        while i < field.len()
            invariant
                i <= field@.len(),
                out@ == mid + field@.take(i as int),
            decreases field@.len() - i,
        {
            out.push(field[i]);
            i += 1;
            assert(field@.take(i as int) =~= field@.take(i - 1).push(field@[i - 1]));
        }
        assert(field@.take(field@.len() as int) =~= field@);
        assert(fv[j as int] == field@);
        j += 1;
    }
    assert(fv.subrange(k as int, f@.len() as int) =~= fv.skip(k as int));
    out
}

proof fn lemma_decimal_digits(n: nat)
    ensures
        decimal(n).len() >= 1,
        all_digits(decimal(n)),
        digits_value(decimal(n)) == n,
    decreases n,
{
    let s = decimal(n);
    assert((digit_char(n % 10) as int) == n % 10 + 48);
    if n < 10 {
        assert(s.drop_last() =~= Seq::<char>::empty());
        assert(digits_value(s) == digits_value(s.drop_last()) * 10 + (s.last() as int - 48) as nat);
    } else {
        lemma_decimal_digits(n / 10);
        assert(s.drop_last() =~= decimal(n / 10));
        assert(s.last() == digit_char(n % 10));
        assert(n == (n / 10) * 10 + n % 10);
        assert(digits_value(s) == digits_value(s.drop_last()) * 10 + (s.last() as int - 48) as nat);
        assert(digits_value(s.drop_last()) == n / 10);
    }
}

/// The decimal notation of a `usize` is read back as that same number.
pub proof fn lemma_usize_field_decimal(n: usize)
    ensures
        usize_field(decimal(n as nat)) == Some(n),
        bar_free(decimal(n as nat)),
        decimal(n as nat).len() >= 1,
{
    lemma_decimal_digits(n as nat);
    let s = decimal(n as nat);
    assert(is_digit(s[0]));
}

fn push_decimal(out: &mut Vec<char>, n: usize)
    ensures
        final(out)@ == old(out)@ + decimal(n as nat),
    decreases n,
{
    if n >= 10 {
        push_decimal(out, n / 10);
    }
    let d: u8 = (n % 10) as u8;
    let c: char = (d + 48u8) as char;
    assert(c == digit_char((n % 10) as nat));
    out.push(c);
    proof {
        if n >= 10 {
            assert(decimal(n as nat) == decimal((n / 10) as nat).push(digit_char((n % 10) as nat)));
        }
    }
}

/// The decimal notation of `n`.
pub fn decimal_chars(n: usize) -> (r: Vec<char>)
    ensures
        r@ == decimal(n as nat),
{
    let mut out: Vec<char> = Vec::new();
    push_decimal(&mut out, n);
    assert(out@ =~= decimal(n as nat));
    out
}

/// A protocol line: the fields joined by separators, then a newline.
pub fn line_of(fields: &Vec<Vec<char>>) -> (r: String)
    ensures
        r@ == join_bar(fields_view(fields@)) + seq!['\n'],
{
    let mut chars = join_fields(fields, 0);
    chars.push('\n');
    assert(fields_view(fields@).skip(0) =~= fields_view(fields@));
    string_from_chars(&chars)
}

/// A field without separators is a whole line of one field.
pub proof fn lemma_split_bar_free(a: Seq<char>)
    requires
        bar_free(a),
    ensures
        split_bar(a) == seq![a],
    decreases a.len(),
{
    if a.len() == 0 {
        assert(a =~= Seq::<char>::empty());
    } else {
        lemma_split_bar_free(a.drop_last());
        assert(!is_bar(a[a.len() - 1]));
        assert(a.drop_last().push(a.last()) =~= a);
    }
}

/// Splitting at a separator splits the two sides independently.
pub proof fn lemma_split_bar_concat(s: Seq<char>, t: Seq<char>)
    ensures
        split_bar(s + seq!['|'] + t) == split_bar(s) + split_bar(t),
    decreases t.len(),
{
    let u = s + seq!['|'] + t;
    lemma_split_bar_nonempty(s);
    if t.len() == 0 {
        assert(u.drop_last() =~= s);
        assert(split_bar(t) =~= seq![Seq::<char>::empty()]);
        assert(split_bar(u) =~= split_bar(s) + split_bar(t));
    } else {
        let t1 = t.drop_last();
        lemma_split_bar_concat(s, t1);
        lemma_split_bar_nonempty(t1);
        assert(u.drop_last() =~= s + seq!['|'] + t1);
        assert(u.last() == t.last());
        let a = split_bar(s);
        let b = split_bar(t1);
        if is_bar(t.last()) {
            assert(split_bar(u) =~= (a + b).push(Seq::<char>::empty()));
            assert(split_bar(t) =~= b.push(Seq::<char>::empty()));
            assert((a + b).push(Seq::<char>::empty()) =~= a + b.push(Seq::<char>::empty()));
        } else {
            let ab = a + b;
            assert(ab.last() == b.last());
            assert(split_bar(u) =~= ab.update(ab.len() - 1, ab.last().push(t.last())));
            assert(split_bar(t) =~= b.update(b.len() - 1, b.last().push(t.last())));
            assert(ab.update(ab.len() - 1, ab.last().push(t.last())) =~= a + b.update(
                b.len() - 1,
                b.last().push(t.last()),
            ));
        }
    }
}

/// Joining the fields of a line gives the line back.
pub proof fn lemma_join_split(s: Seq<char>)
    ensures
        join_bar(split_bar(s)) == s,
    decreases s.len(),
{
    if s.len() == 0 {
        assert(join_bar(split_bar(s)) =~= s);
    } else {
        let s1 = s.drop_last();
        lemma_join_split(s1);
        lemma_split_bar_nonempty(s1);
        let f = split_bar(s1);
        if is_bar(s.last()) {
            let g = f.push(Seq::<char>::empty());
            assert(g.drop_last() =~= f);
            assert(join_bar(g) =~= s);
        } else {
            let g = f.update(f.len() - 1, f.last().push(s.last()));
            if f.len() == 1 {
                assert(join_bar(g) =~= s);
            } else {
                assert(g.drop_last() =~= f.drop_last());
                assert(join_bar(f) == join_bar(f.drop_last()) + seq!['|'] + f.last());
                assert(g.last() == f.last().push(s.last()));
                assert(join_bar(g) == join_bar(g.drop_last()) + seq!['|'] + g.last());
                let a = join_bar(f.drop_last()) + seq!['|'];
                assert(a + f.last().push(s.last()) =~= (a + f.last()).push(s.last()));
                assert(s1.push(s.last()) =~= s);
            }
        }
    }
}

/// Fields without separators are split back into the same fields.
pub proof fn lemma_split_join(f: Seq<Seq<char>>)
    requires
        f.len() >= 1,
        forall|i: int| 0 <= i < f.len() ==> bar_free(#[trigger] f[i]),
    ensures
        split_bar(join_bar(f)) == f,
    decreases f.len(),
{
    if f.len() == 1 {
        lemma_split_bar_free(f[0]);
        assert(f =~= seq![f[0]]);
    } else {
        let g = f.drop_last();
        assert forall|i: int| 0 <= i < g.len() implies bar_free(#[trigger] g[i]) by {
            assert(g[i] == f[i]);
        }
        lemma_split_join(g);
        lemma_split_bar_concat(join_bar(g), f.last());
        lemma_split_bar_free(f.last());
        assert(g + seq![f.last()] =~= f);
    }
}

} // verus!
