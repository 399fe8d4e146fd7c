//! Character-level text operations with their mathematical meaning.
use vstd::prelude::*;
use vstd::string::*;

verus! {

/// `s` with every character that occurs in `set` replaced by `with`
/// (the meaning of `str::replace` with a character or a set of characters as pattern).
pub open spec fn replace_chars(s: Seq<char>, set: Seq<char>, with: Seq<char>) -> Seq<char>
    decreases s.len(),
{
    if s.len() == 0 {
        seq![]
    } else if set.contains(s.last()) {
        replace_chars(s.drop_last(), set, with) + with
    } else {
        replace_chars(s.drop_last(), set, with).push(s.last())
    }
}

/// `s` with the non-overlapping occurrences of the non-empty `pat`, found from the left,
/// replaced by `rep` (the meaning of `str::replace` with a string pattern).
pub open spec fn replace_str(s: Seq<char>, pat: Seq<char>, rep: Seq<char>) -> Seq<char>
    decreases s.len(),
{
    if pat.len() == 0 || s.len() < pat.len() {
        s
    } else if s.take(pat.len() as int) == pat {
        rep + replace_str(s.skip(pat.len() as int), pat, rep)
    } else {
        seq![s[0]] + replace_str(s.drop_first(), pat, rep)
    }
}

/// The pieces of `s` between occurrences of `sep` (the meaning of `str::split` with a
/// character pattern): there is always one piece more than there are separators.
pub open spec fn split_char(s: Seq<char>, sep: char) -> Seq<Seq<char>>
    decreases s.len(),
{
    if s.len() == 0 {
        seq![seq![]]
    } else {
        let pieces = split_char(s.drop_last(), sep);
        if s.last() == sep {
            pieces.push(seq![])
        } else {
            pieces.update(pieces.len() - 1, pieces.last().push(s.last()))
        }
    }
}

/// The pieces one after another.
pub open spec fn concat_all(parts: Seq<Seq<char>>) -> Seq<char>
    decreases parts.len(),
{
    if parts.len() == 0 {
        seq![]
    } else {
        concat_all(parts.drop_last()) + parts.last()
    }
}

/// The pieces with `sep` between each two of them.
pub open spec fn join(parts: Seq<Seq<char>>, sep: Seq<char>) -> Seq<char>
    decreases parts.len(),
{
    if parts.len() == 0 {
        seq![]
    } else if parts.len() == 1 {
        parts[0]
    } else {
        join(parts.drop_last(), sep) + sep + parts.last()
    }
}

/// The ASCII digit for `d < 10`.
pub open spec fn digit_char(d: nat) -> char {
    (d + 48) as char
}

/// The decimal notation of `n`, without sign or leading zeros.
pub open spec fn decimal(n: nat) -> Seq<char>
    decreases n,
{
    if n < 10 {
        seq![digit_char(n)]
    } else {
        decimal(n / 10).push(digit_char(n % 10))
    }
}

/// Calls `String::push`, which appends the character `c` to `s`; the contract claims just that.
#[verifier::external_body]
pub fn push_char(s: &mut String, c: char)
    ensures
        final(s)@ == old(s)@.push(c),
{
    s.push(c);
}

/// The characters of `s`.
pub fn to_chars(s: &str) -> (res: Vec<char>)
    ensures
        res@ == s@,
{
    let mut res: Vec<char> = Vec::new();
    for c in it: s.chars()
        invariant
            res@ == it.seq().take(it.index() as int),
            it.seq() == s@,
    {
        res.push(c);
    }
    res
}

/// `s` with every character of `set` replaced by `with`.
pub fn replace_chars_in(s: &str, set: &[char], with: &str) -> (res: String)
    ensures
        res@ == replace_chars(s@, set@, with@),
{
    let mut res = String::new();
    for c in it: s.chars()
        invariant
            res@ == replace_chars(it.seq().take(it.index() as int), set@, with@),
            it.seq() == s@,
    {
        let ghost before = it.seq().take(it.index() as int);
        let mut found = false;
        for k in 0..set.len()
            invariant
                found <==> exists|j: int| 0 <= j < k && set@[j] == c,
        {
            if set[k] == c {
                found = true;
            }
        }
        assert(it.seq().take(it.index() + 1).drop_last() == before);
        if found {
            res.append(with);
        } else {
            push_char(&mut res, c);
        }
    }
    assert(s@.take(s@.len() as int) == s@);
    res
}

/// Appends the decimal notation of `n`.
pub fn push_decimal(s: &mut String, n: u64)
    ensures
        final(s)@ == old(s)@ + decimal(n as nat),
    decreases n,
{
    if n >= 10 {
        push_decimal(s, n / 10);
    }
    let d: u64 = n % 10;
    let c: char = ((48 + d) as u8) as char;
    assert(c == digit_char((n % 10) as nat));
    push_char(s, c);
}


/// Whether `pat` occurs in `s` at position `at`.
fn occurs_at(s: &Vec<char>, pat: &Vec<char>, at: usize) -> (res: bool)
    requires
        at <= s@.len(),
    ensures
        res == (at + pat@.len() <= s@.len() && s@.subrange(at as int, at + pat@.len()) == pat@),
{
    if pat.len() > s.len() - at {
        return false;
    }
    let n = s.len();
    let mut k: usize = 0;
    while k < pat.len()
        invariant
            n == s@.len(),
            at + pat@.len() <= s@.len(),
            k <= pat@.len(),
            forall|j: int| 0 <= j < k ==> s@[at + j] == pat@[j],
        decreases pat@.len() - k,
    {
        assert(at + k < s@.len());
        if s[at + k] != pat[k] {
            assert(s@.subrange(at as int, at + pat@.len())[k as int] != pat@[k as int]);
            return false;
        }
        k = k + 1;
    }
    assert(s@.subrange(at as int, at + pat@.len()) =~= pat@);
    true
}

/// The string made of the characters of `chars`.
pub fn from_chars(chars: &Vec<char>) -> (res: String)
    ensures
        res@ == chars@,
{
    let mut res = String::new();
    for k in 0..chars.len()
        invariant
            res@ == chars@.take(k as int),
    {
        assert(chars@.take(k + 1) == chars@.take(k as int).push(chars@[k as int]));
        push_char(&mut res, chars[k]);
    }
    assert(chars@.take(chars@.len() as int) == chars@);
    res
}

/// `s` with the non-overlapping occurrences of `pat`, from the left, replaced by `rep`.
pub fn replace_str_in(s: &str, pat: &str, rep: &str) -> (res: String)
    requires
        pat@.len() > 0,
    ensures
        res@ == replace_str(s@, pat@, rep@),
{
    let cs = to_chars(s);
    let ps = to_chars(pat);
    let mut res = String::new();
    let mut i: usize = 0;
    assert(cs@.skip(0) == cs@);
    assert(res@ + cs@ == cs@);
    while i < cs.len()
        invariant
            cs@ == s@,
            ps@ == pat@,
            ps@.len() > 0,
            i <= cs@.len(),
            res@ + replace_str(cs@.skip(i as int), ps@, rep@) == replace_str(cs@, ps@, rep@),
        decreases cs@.len() - i,
    {
        let ghost rest = cs@.skip(i as int);
        if occurs_at(&cs, &ps, i) {
            assert(rest.take(ps@.len() as int) == cs@.subrange(i as int, i + ps@.len()));
            assert(rest.skip(ps@.len() as int) == cs@.skip(i + ps@.len()));
            res.append(rep);
            i = i + ps.len();
            assert(res@ + replace_str(cs@.skip(i as int), ps@, rep@) == replace_str(cs@, ps@, rep@));
        } else {
            proof {
                if rest.len() >= ps@.len() {
                    assert(rest.take(ps@.len() as int) == cs@.subrange(i as int, i + ps@.len()));
                }
                assert(rest.drop_first() == cs@.skip(i + 1));
                if rest.len() < ps@.len() {
                    // the rest is too short to hold the pattern: it stays as it is
                    assert(replace_str(rest, ps@, rep@) == rest);
                    assert(replace_str(rest.drop_first(), ps@, rep@) == rest.drop_first());
                    assert(rest == seq![rest[0]] + rest.drop_first());
                }
            }
            push_char(&mut res, cs[i]);
            i = i + 1;
            assert(res@ + replace_str(cs@.skip(i as int), ps@, rep@) == replace_str(cs@, ps@, rep@));
        }
    }
    assert(cs@.skip(i as int) == Seq::<char>::empty());
    res
}


/// The views of a list of strings.
pub open spec fn views(v: Seq<String>) -> Seq<Seq<char>> {
    v.map_values(|p: String| p@)
}

/// The pieces of `s` between the occurrences of `sep`.
pub fn split_on(s: &str, sep: char) -> (res: Vec<String>)
    ensures
        views(res@) == split_char(s@, sep),
{
    let mut pieces: Vec<String> = Vec::new();
    let mut cur = String::new();
    for c in it: s.chars()
        invariant
            views(pieces@).push(cur@) == split_char(it.seq().take(it.index() as int), sep),
            it.seq() == s@,
    {
        let ghost before = it.seq().take(it.index() as int);
        let ghost old_pieces = views(pieces@);
        let ghost old_cur = cur@;
        assert(it.seq().take(it.index() + 1).drop_last() == before);
        if c == sep {
            let done = cur;
            pieces.push(done);
            cur = String::new();
            assert(views(pieces@) == old_pieces.push(old_cur));
        } else {
            push_char(&mut cur, c);
            assert(views(pieces@).push(cur@) == old_pieces.push(old_cur).update(
                old_pieces.len() as int, old_cur.push(c)));
        }
    }
    assert(s@.take(s@.len() as int) == s@);
    let ghost old_pieces = views(pieces@);
    pieces.push(cur);
    assert(views(pieces@) == old_pieces.push(cur@));
    pieces
}

/// The decimal notations of `values` with `sep` between each two of them.
pub fn join_decimals(values: &Vec<u16>, sep: &str) -> (res: String)
    ensures
        res@ == join(values@.map_values(|v: u16| decimal(v as nat)), sep@),
{
    let ghost parts = values@.map_values(|v: u16| decimal(v as nat));
    let mut res = String::new();
    for k in 0..values.len()
        invariant
            parts == values@.map_values(|v: u16| decimal(v as nat)),
            res@ == join(parts.take(k as int), sep@),
    {
        assert(parts.take(k + 1).drop_last() == parts.take(k as int));
        if k > 0 {
            res.append(sep);
        }
        push_decimal(&mut res, values[k] as u64);
    }
    assert(parts.take(values@.len() as int) == parts);
    res
}


/// The views of a list of string slices.
pub open spec fn str_views(v: Seq<&str>) -> Seq<Seq<char>> {
    v.map_values(|p: &str| p@)
}

pub proof fn lemma_concat_all_push(parts: Seq<Seq<char>>, x: Seq<char>)
    ensures
        concat_all(parts.push(x)) == concat_all(parts) + x,
{
    assert(parts.push(x).drop_last() == parts);
}

/// Appends the pieces one after another.
pub fn push_parts(b: &mut String, parts: &Vec<&str>)
    ensures
        final(b)@ == old(b)@ + concat_all(str_views(parts@)),
{
    let ghost start = b@;
    for k in 0..parts.len()
        invariant
            b@ == start + concat_all(str_views(parts@).take(k as int)),
    {
        proof {
            lemma_concat_all_push(str_views(parts@).take(k as int), parts@[k as int]@);
            assert(str_views(parts@).take(k + 1) == str_views(parts@).take(k as int).push(parts@[k as int]@));
        }
        b.append(parts[k]);
        assert(b@ =~= start + concat_all(str_views(parts@).take(k + 1)));
    }
    assert(str_views(parts@).take(parts@.len() as int) == str_views(parts@));
}

/// The decimal notation of `n`.
pub fn decimal_string(n: u64) -> (res: String)
    ensures
        res@ == decimal(n as nat),
{
    let mut res = String::new();
    push_decimal(&mut res, n);
    assert(res@ =~= decimal(n as nat));
    res
}


/// Whether `c` is an ASCII decimal digit.
pub open spec fn is_digit(c: char) -> bool {
    '0' <= c && c <= '9'
}

/// The value of the ASCII digit `c`.
pub open spec fn digit_value(c: char) -> nat {
    ((c as int) - 48) as nat
}

/// The number that the digits of `s` write in decimal.
pub open spec fn digits_value(s: Seq<char>) -> nat
    decreases s.len(),
{
    if s.len() == 0 {
        0
    } else {
        digits_value(s.drop_last()) * 10 + digit_value(s.last())
    }
}

pub open spec fn all_digits(s: Seq<char>) -> bool {
    forall|i: int| 0 <= i < s.len() ==> is_digit(#[trigger] s[i])
}

/// What `str::parse` gives for an unsigned integer type whose largest value is `max`:
/// an optional `+`, then at least one decimal digit, with a value of at most `max`.
pub open spec fn parse_unsigned_spec(s: Seq<char>, max: nat) -> Option<nat> {
    let body = if s.len() > 0 && s[0] == '+' { s.drop_first() } else { s };
    if body.len() > 0 && all_digits(body) && digits_value(body) <= max {
        Some(digits_value(body))
    } else {
        None
    }
}

/// What `str::parse::<i32>` gives: an optional sign, then at least one decimal digit, with a
/// value that `i32` holds.
pub open spec fn parse_i32_spec(s: Seq<char>) -> Option<int> {
    let negative = s.len() > 0 && s[0] == '-';
    let body = if s.len() > 0 && (s[0] == '+' || s[0] == '-') { s.drop_first() } else { s };
    if body.len() > 0 && all_digits(body) {
        if negative && digits_value(body) <= 0x8000_0000 {
            Some(-(digits_value(body) as int))
        } else if !negative && digits_value(body) <= 0x7fff_ffff {
            Some(digits_value(body) as int)
        } else {
            None
        }
    } else {
        None
    }
}

/// The value of the digits of `body`, if they are all digits and the value is at most `max`.
fn parse_digits(body: &Vec<char>, from: usize, max: u64) -> (res: Option<u64>)
    requires
        from <= body@.len(),
        max <= u32::MAX,
    ensures
        res is Some <==> (all_digits(body@.skip(from as int)) && digits_value(body@.skip(from as int)) <= max),
        res matches Some(v) ==> v == digits_value(body@.skip(from as int)),
{
    let ghost tail = body@.skip(from as int);
    let mut acc: u64 = 0;
    let mut too_big = false;
    let mut k: usize = from;
    assert(tail.take(0) =~= Seq::<char>::empty());
    while k < body.len()
        invariant
            tail == body@.skip(from as int),
            from <= k <= body@.len(),
            max <= u32::MAX,
            acc <= max,
            all_digits(tail.take(k - from)),
            !too_big ==> acc == digits_value(tail.take(k - from)),
            too_big ==> digits_value(tail.take(k - from)) > max,
        decreases body@.len() - k,
    {
        let c = body[k];
        let ghost prefix = tail.take(k - from);
        assert(tail[k - from] == c);
        assert(tail.take(k + 1 - from) =~= prefix.push(c));
        assert(tail.take(k + 1 - from).drop_last() =~= prefix);
        if !('0' <= c && c <= '9') {
            assert(!is_digit(tail[k - from]));
            return None;
        }
        let d: u64 = (c as u64) - 48;
        assert(d == digit_value(c));
        if !too_big {
            let next: u64 = acc * 10 + d;
            if next > max {
                too_big = true;
            } else {
                acc = next;
            }
        }
        k = k + 1;
    }
    assert(tail.take(k - from) =~= tail);
    if too_big {
        None
    } else {
        Some(acc)
    }
}

/// Parses an unsigned decimal number that must not exceed `max`, as `str::parse` does for
/// the unsigned integer type whose largest value is `max`.
pub fn parse_unsigned(s: &str, max: u64) -> (res: Option<u64>)
    requires
        max <= u32::MAX,
    ensures
        match parse_unsigned_spec(s@, max as nat) {
            Some(v) => res == Some(v as u64),
            None => res is None,
        },
{
    let cs = to_chars(s);
    let from: usize = if cs.len() > 0 && cs[0] == '+' { 1 } else { 0 };
    assert(cs@.skip(from as int) =~= (if s@.len() > 0 && s@[0] == '+' { s@.drop_first() } else { s@ }));
    if from == cs.len() {
        return None;
    }
    parse_digits(&cs, from, max)
}

/// Parses a decimal `u16`, as `str::parse::<u16>` does.
pub fn parse_u16(s: &str) -> (res: Option<u16>)
    ensures
        match parse_unsigned_spec(s@, u16::MAX as nat) {
            Some(v) => res == Some(v as u16),
            None => res is None,
        },
{
    match parse_unsigned(s, u16::MAX as u64) {
        Some(v) => Some(v as u16),
        None => None,
    }
}

/// Parses a decimal `u32`, as `str::parse::<u32>` does.
pub fn parse_u32(s: &str) -> (res: Option<u32>)
    ensures
        match parse_unsigned_spec(s@, u32::MAX as nat) {
            Some(v) => res == Some(v as u32),
            None => res is None,
        },
{
    match parse_unsigned(s, u32::MAX as u64) {
        Some(v) => Some(v as u32),
        None => None,
    }
}

/// Parses a decimal `i32`, as `str::parse::<i32>` does.
pub fn parse_i32(s: &str) -> (res: Option<i32>)
    ensures
        match parse_i32_spec(s@) {
            Some(v) => res == Some(v as i32),
            None => res is None,
        },
{
    let cs = to_chars(s);
    let signed = cs.len() > 0 && (cs[0] == '+' || cs[0] == '-');
    let negative = cs.len() > 0 && cs[0] == '-';
    let from: usize = if signed { 1 } else { 0 };
    assert(cs@.skip(from as int) =~= (if s@.len() > 0 && (s@[0] == '+' || s@[0] == '-') { s@.drop_first() } else { s@ }));
    if from == cs.len() {
        return None;
    }
    let max: u64 = if negative { 0x8000_0000 } else { 0x7fff_ffff };
    match parse_digits(&cs, from, max) {
        Some(v) => {
            if negative {
                Some((0 - (v as i64)) as i32)
            } else {
                Some(v as i32)
            }
        },
        None => None,
    }
}

/// The pieces of a text split anywhere: those before the split, then those after.
pub proof fn lemma_concat_all_split(s: Seq<Seq<char>>, i: int)
    requires
        0 <= i <= s.len(),
    ensures
        concat_all(s) == concat_all(s.take(i)) + concat_all(s.skip(i)),
    decreases s.len(),
{
    if i == s.len() {
        assert(s.take(i) == s);
        assert(s.skip(i) == Seq::<Seq<char>>::empty());
        assert(concat_all(s) + seq![] == concat_all(s));
    } else {
        let dl = s.drop_last();
        lemma_concat_all_split(dl, i);
        assert(dl.take(i) == s.take(i));
        assert(s.skip(i).drop_last() == dl.skip(i));
        assert(s.skip(i).last() == s.last());
        assert(concat_all(s) =~= concat_all(s.take(i)) + concat_all(s.skip(i)));
    }
}

/// The first piece, then the others.
pub proof fn lemma_concat_all_front(t: Seq<Seq<char>>)
    requires
        t.len() > 0,
    ensures
        concat_all(t) == t[0] + concat_all(t.drop_first()),
{
    lemma_concat_all_split(t, 1);
    assert(t.take(1).drop_last() == Seq::<Seq<char>>::empty());
    assert(t.take(1).last() == t[0]);
    assert(concat_all(t.take(1).drop_last()) == Seq::<char>::empty());
    assert(concat_all(t.take(1)) == concat_all(t.take(1).drop_last()) + t.take(1).last());
    assert(Seq::<char>::empty() + t[0] =~= t[0]);
    assert(t.skip(1) == t.drop_first());
}

/// `concat_all(t)` starting with the pieces `x`, `y` and `z`.
pub proof fn lemma_concat_all_three(t: Seq<Seq<char>>)
    requires
        t.len() >= 3,
    ensures
        concat_all(t) == t[0] + t[1] + t[2] + concat_all(t.skip(3)),
{
    lemma_concat_all_front(t);
    lemma_concat_all_front(t.drop_first());
    lemma_concat_all_front(t.drop_first().drop_first());
    assert(t.drop_first().drop_first().drop_first() == t.skip(3));
    assert(concat_all(t) =~= t[0] + t[1] + t[2] + concat_all(t.skip(3)));
}


/// Whether `t` occurs in `s` as a contiguous piece.
pub open spec fn contains_text(s: Seq<char>, t: Seq<char>) -> bool {
    exists|pre: Seq<char>, post: Seq<char>| s == pre + t + post
}

pub proof fn lemma_contains_self(t: Seq<char>)
    ensures
        contains_text(t, t),
{
    assert(t == Seq::<char>::empty() + t + Seq::<char>::empty());
}

pub proof fn lemma_contains_trans(s: Seq<char>, t: Seq<char>, u: Seq<char>)
    requires
        contains_text(s, t),
        contains_text(t, u),
    ensures
        contains_text(s, u),
{
    let (p1, q1) = choose|pre: Seq<char>, post: Seq<char>| s == pre + t + post;
    let (p2, q2) = choose|pre: Seq<char>, post: Seq<char>| t == pre + u + post;
    assert(s == (p1 + p2) + u + (q2 + q1));
}

pub proof fn lemma_contains_left(a: Seq<char>, b: Seq<char>, t: Seq<char>)
    requires
        contains_text(a, t),
    ensures
        contains_text(a + b, t),
{
    let (p, q) = choose|pre: Seq<char>, post: Seq<char>| a == pre + t + post;
    assert(a + b == p + t + (q + b));
}

pub proof fn lemma_contains_right(a: Seq<char>, b: Seq<char>, t: Seq<char>)
    requires
        contains_text(b, t),
    ensures
        contains_text(a + b, t),
{
    let (p, q) = choose|pre: Seq<char>, post: Seq<char>| b == pre + t + post;
    assert(a + b == (a + p) + t + q);
}

/// The pieces from `i` to `i + k` occur, one after another, in the concatenation of all.
pub proof fn lemma_concat_all_contains_run(s: Seq<Seq<char>>, i: int, k: int)
    requires
        0 <= i,
        0 <= k,
        i + k <= s.len(),
    ensures
        contains_text(concat_all(s), concat_all(s.subrange(i, i + k))),
{
    lemma_concat_all_split(s, i + k);
    let head = s.take(i + k);
    lemma_concat_all_split(head, i);
    assert(head.take(i) == s.take(i));
    assert(head.skip(i) == s.subrange(i, i + k));
    assert(concat_all(s) == concat_all(s.take(i)) + concat_all(s.subrange(i, i + k)) + concat_all(s.skip(i + k)));
}

/// Each piece occurs in the concatenation of all.
pub proof fn lemma_concat_all_contains(s: Seq<Seq<char>>, i: int)
    requires
        0 <= i < s.len(),
    ensures
        contains_text(concat_all(s), s[i]),
{
    lemma_concat_all_contains_run(s, i, 1);
    let one = s.subrange(i, i + 1);
    assert(one.drop_last() =~= Seq::<Seq<char>>::empty());
    assert(concat_all(one) == concat_all(one.drop_last()) + one.last());
    assert(concat_all(one) =~= s[i]);
}

/// The first two pieces, one after the other, occur in the concatenation of all.
pub proof fn lemma_concat_all_opens(s: Seq<Seq<char>>)
    requires
        s.len() >= 2,
    ensures
        contains_text(concat_all(s), s[0] + s[1]),
{
    lemma_concat_all_contains_run(s, 0, 2);
    let two = s.subrange(0, 2);
    assert(two.drop_last().drop_last() =~= Seq::<Seq<char>>::empty());
    assert(concat_all(two.drop_last()) == concat_all(two.drop_last().drop_last()) + two.drop_last().last());
    assert(concat_all(two) == concat_all(two.drop_last()) + two.last());
    assert(concat_all(two) =~= s[0] + s[1]);
}

/// Three pieces one after another.
pub proof fn lemma_concat_all_of_three(a: Seq<char>, b: Seq<char>, c: Seq<char>)
    ensures
        concat_all(seq![a, b, c]) == a + b + c,
{
    let s = seq![a, b, c];
    lemma_concat_all_three(s);
    assert(s.skip(3) =~= Seq::<Seq<char>>::empty());
    assert(concat_all(s.skip(3)) == Seq::<char>::empty());
    assert(a + b + c + Seq::<char>::empty() =~= a + b + c);
}

} // verus!
