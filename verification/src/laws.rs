//! Properties that relate the parts of the benchmark to one another.
use vstd::prelude::*;
use vstd::string::*;
use crate::text::{
    concat_all, lemma_concat_all_split, lemma_concat_all_three, lemma_concat_all_front, replace_chars, replace_str, split_char, decimal, digit_char, digit_value, digits_value, all_digits, is_digit,
    parse_unsigned_spec, parse_i32_spec,
};
use crate::manifest::ManifestView;
use crate::scheduled_template::{function_name, FUNCTION_PREFIX, DASH};
use crate::log_stream::{function_name_of, LAMBDA_LOG_PREFIX};
use crate::matrix_template;
use crate::listing::ListingView;
use crate::grouping::{RunKey, Group, ArchitectureGroups, run_keys, positions, runs_in};

verus! {

/// Whether `c` occurs in `s`.
pub open spec fn has_char(s: Seq<char>, c: char) -> bool {
    exists|i: int| 0 <= i < s.len() && s[i] == c
}

/// Replacing a pattern that does not occur anywhere leaves the text as it is.
proof fn lemma_replace_absent(s: Seq<char>, pat: Seq<char>, rep: Seq<char>)
    requires
        pat.len() > 0,
        forall|q: int| 0 <= q && q + pat.len() <= s.len() ==> #[trigger] s.subrange(q, q + pat.len()) != pat,
    ensures
        replace_str(s, pat, rep) == s,
    decreases s.len(),
{
    if s.len() >= pat.len() {
        assert(s.take(pat.len() as int) == s.subrange(0, pat.len() as int));
        assert(s.subrange(0int, 0int + pat.len()) != pat);
        let t = s.drop_first();
        assert forall|q: int| 0 <= q && q + pat.len() <= t.len() implies #[trigger] t.subrange(q, q + pat.len()) != pat by {
            assert(t.subrange(q, q + pat.len()) == s.subrange(q + 1, q + 1 + pat.len()));
        }
        lemma_replace_absent(t, pat, rep);
        assert(s == seq![s[0]] + t);
    }
}

/// A pattern holding a character that the text lacks does not occur in it.
proof fn lemma_char_blocks(s: Seq<char>, pat: Seq<char>, c: char, at: int)
    requires
        0 <= at < pat.len(),
        pat[at] == c,
        !has_char(s, c),
    ensures
        forall|q: int| 0 <= q && q + pat.len() <= s.len() ==> #[trigger] s.subrange(q, q + pat.len()) != pat,
{
    assert forall|q: int| 0 <= q && q + pat.len() <= s.len() implies #[trigger] s.subrange(q, q + pat.len()) != pat by {
        if s.subrange(q, q + pat.len()) == pat {
            assert(s[q + at] == c);
        }
    }
}

/// Splitting a text that ends in a piece without separators extends the last piece.
proof fn lemma_split_suffix(x: Seq<char>, t: Seq<char>, sep: char)
    requires
        !has_char(t, sep),
    ensures
        split_char(x + t, sep) == split_char(x, sep).update(
            split_char(x, sep).len() - 1,
            split_char(x, sep).last() + t,
        ),
        split_char(x + t, sep).len() == split_char(x, sep).len(),
    decreases t.len(),
{
    lemma_split_nonempty(x, sep);
    let sx = split_char(x, sep);
    if t.len() == 0 {
        assert(x + t == x);
        assert(sx.last() + t == sx.last());
        assert(sx.update(sx.len() - 1, sx.last()) =~= sx);
    } else {
        let t0 = t.drop_last();
        assert(!has_char(t0, sep)) by {
            if has_char(t0, sep) {
                let i = choose|i: int| 0 <= i < t0.len() && t0[i] == sep;
                assert(t[i] == sep);
            }
        }
        lemma_split_suffix(x, t0, sep);
        assert((x + t).drop_last() == x + t0);
        assert((x + t).last() == t.last());
        assert(t.last() != sep) by {
            assert(t[t.len() - 1] == t.last());
        }
        assert(split_char(x, sep).last() + t0 + seq![t.last()] == split_char(x, sep).last() + t) by {
            assert(t == t0.push(t.last()));
        }
        lemma_split_nonempty(x + t0, sep);
        let st0 = split_char(x + t0, sep);
        assert(st0 == sx.update(sx.len() - 1, sx.last() + t0));
        assert(st0.last() == sx.last() + t0);
        assert(split_char(x + t, sep) == st0.update(st0.len() - 1, st0.last().push(t.last())));
        assert(st0.last().push(t.last()) =~= sx.last() + t);
        assert(split_char(x + t, sep) =~= sx.update(sx.len() - 1, sx.last() + t));
    }
}

proof fn lemma_split_nonempty(s: Seq<char>, sep: char)
    ensures
        split_char(s, sep).len() >= 1,
    decreases s.len(),
{
    if s.len() > 0 {
        lemma_split_nonempty(s.drop_last(), sep);
    }
}

/// The log processor recovers the runtime and the architecture of every benchmark function
/// of the scheduled template from the name of its log group, provided that neither holds a
/// dash or a slash: the function name without the prefixes splits into exactly those two.
pub proof fn law_log_group_names_identify_functions(r: ManifestView, a: Seq<char>)
    requires
        !has_char(r.path, '-'),
        !has_char(a, '-'),
        !has_char(r.path, '/'),
        !has_char(a, '/'),
    ensures
        split_char(function_name_of(LAMBDA_LOG_PREFIX@ + function_name(r, a)), '-') == seq![r.path, a],
{
    reveal_strlit("/aws/lambda/");
    reveal_strlit("lambda-benchmark-");
    reveal_strlit("-");
    let p1 = LAMBDA_LOG_PREFIX@;
    let p2 = FUNCTION_PREFIX@;
    let rest = r.path + DASH@ + a;
    let s = p1 + (p2 + rest);
    assert(LAMBDA_LOG_PREFIX@ + function_name(r, a) == s);
    // the first replacement takes the log prefix off
    assert(s.take(p1.len() as int) == p1);
    assert(s.skip(p1.len() as int) == p2 + rest);
    assert(!has_char(p2 + rest, '/')) by {
        if has_char(p2 + rest, '/') {
            let i = choose|i: int| 0 <= i < (p2 + rest).len() && (p2 + rest)[i] == '/';
            if i < p2.len() {
                assert(p2[i] == '/');
            } else if i < p2.len() + r.path.len() {
                assert(r.path[i - p2.len()] == '/');
            } else if i == p2.len() + r.path.len() {
            } else {
                assert(a[i - p2.len() - r.path.len() - 1] == '/');
            }
        }
    }
    lemma_char_blocks(p2 + rest, p1, '/', 0);
    lemma_replace_absent(p2 + rest, p1, seq![]);
    assert(replace_str(s, p1, seq![]) == seq![] + (p2 + rest));
    assert(seq![] + (p2 + rest) == p2 + rest);
    // the second takes the project prefix off
    let u = p2 + rest;
    assert(u.take(p2.len() as int) == p2);
    assert(u.skip(p2.len() as int) == rest);
    assert(p2.len() == 17);
    assert(p2[6] == '-' && p2[16] == '-');
    assert forall|q: int| 0 <= q && q + p2.len() <= rest.len() implies #[trigger] rest.subrange(q, q + p2.len()) != p2 by {
        if rest.subrange(q, q + p2.len()) == p2 {
            assert(rest.subrange(q, q + p2.len())[6] == rest[q + 6]);
            assert(rest.subrange(q, q + p2.len())[16] == rest[q + 16]);
            assert(rest[q + 6] == '-');
            assert(rest[q + 16] == '-');
            assert forall|i: int| 0 <= i < rest.len() && rest[i] == '-' implies i == r.path.len() by {
                if i < r.path.len() {
                    assert(r.path[i] == '-');
                } else if i > r.path.len() {
                    assert(a[i - r.path.len() - 1] == '-');
                }
            }
        }
    }
    lemma_replace_absent(rest, p2, seq![]);
    assert(replace_str(u, p2, seq![]) == seq![] + rest);
    assert(seq![] + rest == rest);
    assert(function_name_of(LAMBDA_LOG_PREFIX@ + function_name(r, a)) == rest);
    // splitting at the one dash gives the runtime and the architecture
    lemma_split_suffix(seq![], r.path, '-');
    assert(seq![] + r.path == r.path);
    assert(split_char(r.path, '-') == seq![r.path]);
    let x = r.path + DASH@;
    assert(x.drop_last() == r.path);
    assert(split_char(x, '-') == seq![r.path, seq![]]);
    lemma_split_suffix(x, a, '-');
    assert(x + a == rest);
    assert(seq![] + a == a);
    assert(split_char(rest, '-') == seq![r.path, a]);
}

/// The decimal notation of a number consists of digits whose value is that number.
pub proof fn law_decimal_reads_back(n: nat)
    ensures
        decimal(n).len() > 0,
        all_digits(decimal(n)),
        digits_value(decimal(n)) == n,
    decreases n,
{
    assert(digit_value(digit_char(n % 10)) == n % 10);
    if n >= 10 {
        law_decimal_reads_back(n / 10);
        let d = decimal(n / 10);
        assert(decimal(n) == d.push(digit_char(n % 10)));
        assert(decimal(n).drop_last() == d);
        assert(decimal(n).last() == digit_char(n % 10));
        assert(digits_value(decimal(n)) == digits_value(d) * 10 + digit_value(digit_char(n % 10)));
        assert((n / 10) * 10 + n % 10 == n) by (nonlinear_arith);
        assert forall|i: int| 0 <= i < decimal(n).len() implies is_digit(#[trigger] decimal(n)[i]) by {
            if i < d.len() {
                assert(decimal(n)[i] == d[i]);
            }
        }
    } else {
        assert(decimal(n).drop_last() == Seq::<char>::empty());
        assert(n % 10 == n);
        assert(decimal(n).last() == digit_char(n));
        assert(digits_value(Seq::<char>::empty()) == 0);
    }
}

/// Every number that the template or the benchmark function writes in decimal is read back
/// as itself by the parsers of the unsigned types that hold it, and of `i32`.
pub proof fn law_decimal_parses_back(n: nat, max: nat)
    requires
        n <= max,
    ensures
        parse_unsigned_spec(decimal(n), max) == Some(n),
        n <= 0x7fff_ffff ==> parse_i32_spec(decimal(n)) == Some(n as int),
{
    law_decimal_reads_back(n);
    assert(is_digit(decimal(n)[0]));
}

/// The positions of a key are exactly the places below `n` that hold it.
proof fn lemma_positions_contains(keys: Seq<(Seq<char>, Seq<char>, u16)>, k: (Seq<char>, Seq<char>, u16), n: nat, j: usize)
    requires
        n <= keys.len(),
        n <= usize::MAX + 1,
    ensures
        positions(keys, k, n).contains(j) <==> (j < n && keys[j as int] == k),
    decreases n,
{
    if n > 0 {
        lemma_positions_contains(keys, k, (n - 1) as nat, j);
        let prev = positions(keys, k, (n - 1) as nat);
        if keys[n - 1] == k {
            let cur = prev.push((n - 1) as usize);
            if cur.contains(j) {
                let t = choose|t: int| 0 <= t < cur.len() && cur[t] == j;
                if t < prev.len() {
                    assert(prev[t] == j);
                }
            }
            if prev.contains(j) {
                let t = choose|t: int| 0 <= t < prev.len() && prev[t] == j;
                assert(cur[t] == j);
            }
            if j == n - 1 {
                assert(cur[prev.len() as int] == j);
            }
        }
    }
}

/// The positions of a key ascend strictly and lie below `n`.
proof fn lemma_positions_ascend(keys: Seq<(Seq<char>, Seq<char>, u16)>, k: (Seq<char>, Seq<char>, u16), n: nat)
    requires
        n <= keys.len(),
        n <= usize::MAX + 1,
    ensures
        forall|t: int| 0 <= t < positions(keys, k, n).len() ==> #[trigger] positions(keys, k, n)[t] < n,
        forall|a: int, b: int| 0 <= a < b < positions(keys, k, n).len()
            ==> #[trigger] positions(keys, k, n)[a] < #[trigger] positions(keys, k, n)[b],
    decreases n,
{
    if n > 0 {
        lemma_positions_ascend(keys, k, (n - 1) as nat);
        let prev = positions(keys, k, (n - 1) as nat);
        if keys[n - 1] == k {
            let cur = prev.push((n - 1) as usize);
            assert(positions(keys, k, n) == cur);
            assert forall|a: int, b: int| 0 <= a < b < cur.len() implies #[trigger] cur[a] < #[trigger] cur[b] by {
                if b < prev.len() {
                    assert(cur[a] == prev[a] && cur[b] == prev[b]);
                } else {
                    assert(cur[a] == prev[a]);
                }
            }
            assert forall|t: int| 0 <= t < cur.len() implies #[trigger] cur[t] < n by {
                if t < prev.len() {
                    assert(cur[t] == prev[t]);
                }
            }
        }
    }
}

/// Every run is filed under its own runtime, architecture and memory size and under no
/// other, and the runs under each key keep the order in which they came.
pub proof fn law_each_run_filed_once(runs: Seq<RunKey>, g: Seq<Group<String, ArchitectureGroups>>)
    requires
        runs.len() <= usize::MAX,
        forall|k: (Seq<char>, Seq<char>, u16)| #[trigger] runs_in(g, k) == positions(run_keys(runs), k, runs.len()),
    ensures
        forall|i: int, k: (Seq<char>, Seq<char>, u16)| 0 <= i < runs.len()
            ==> (#[trigger] runs_in(g, k).contains(i as usize) <==> k == runs[i]@),
        forall|k: (Seq<char>, Seq<char>, u16), a: int, b: int| 0 <= a < b < runs_in(g, k).len()
            ==> #[trigger] runs_in(g, k)[a] < #[trigger] runs_in(g, k)[b],
{
    assert forall|i: int, k: (Seq<char>, Seq<char>, u16)| 0 <= i < runs.len()
        implies (#[trigger] runs_in(g, k).contains(i as usize) <==> k == runs[i]@) by {
        lemma_positions_contains(run_keys(runs), k, runs.len(), i as usize);
        assert(run_keys(runs)[i] == runs[i]@);
    }
    assert forall|k: (Seq<char>, Seq<char>, u16), a: int, b: int| 0 <= a < b < runs_in(g, k).len()
        implies #[trigger] runs_in(g, k)[a] < #[trigger] runs_in(g, k)[b] by {
        lemma_positions_ascend(run_keys(runs), k, runs.len());
    }
}


/// In the matrix template, the function deployed for a runtime, architecture and memory size
/// gets the log group `/aws/lambda/` followed by its name, and the log extractor of the
/// state-machine branch that runs it reads the log group with that very name.
pub proof fn law_branch_reads_the_logs_of_its_function(
    p: matrix_template::ParametersView,
    r: ManifestView,
    a: Seq<char>,
    l: matrix_template::LabelsView,
    m: u16,
)
    ensures
        exists|pre: Seq<char>, post: Seq<char>| matrix_template::runtime_function(p, r, a, l, m)
            == pre + matrix_template::RUNTIME_FUNCTION_11@ + matrix_template::LOG_GROUP_PREFIX@
            + matrix_template::function_name(r, a, m) + post,
        exists|pre: Seq<char>, post: Seq<char>| matrix_template::memory_branch(p, r, a, l, m)
            == pre + matrix_template::LOG_EXTRACTOR_2@ + matrix_template::LOG_GROUP_PREFIX@
            + matrix_template::function_name(r, a, m) + post,
{
    let fname = matrix_template::function_name(r, a, m);
    // the function resource
    let name = matrix_template::lambda_name(r, l, m);
    let f = seq![
        matrix_template::RUNTIME_FUNCTION_0@, name, matrix_template::FUNCTION_RESOURCE_TYPE@,
        matrix_template::RUNTIME_FUNCTION_1@, fname,
        matrix_template::RUNTIME_FUNCTION_2@, matrix_template::description(r, a, m),
        matrix_template::RUNTIME_FUNCTION_3@, r.runtime, matrix_template::RUNTIME_FUNCTION_4@, a,
        matrix_template::RUNTIME_FUNCTION_5@, r.handler, matrix_template::RUNTIME_FUNCTION_6@,
        decimal(m as nat), matrix_template::RUNTIME_FUNCTION_7@, p.bucket_name,
        matrix_template::RUNTIME_FUNCTION_8@, matrix_template::code_key(r.path, a),
        matrix_template::RUNTIME_FUNCTION_9@, p.bucket_name, matrix_template::RUNTIME_FUNCTION_10@, name,
        matrix_template::RUNTIME_FUNCTION_11@, matrix_template::LOG_GROUP_PREFIX@, fname,
        matrix_template::RUNTIME_FUNCTION_12@, decimal(p.log_retention_in_days as nat),
        matrix_template::RUNTIME_FUNCTION_13@,
    ];
    assert(matrix_template::runtime_function(p, r, a, l, m) == concat_all(f));
    lemma_concat_all_split(f, 23);
    lemma_concat_all_three(f.skip(23));
    let pre1 = concat_all(f.take(23));
    let post1 = concat_all(f.skip(23).skip(3));
    assert(matrix_template::runtime_function(p, r, a, l, m)
        =~= pre1 + matrix_template::RUNTIME_FUNCTION_11@ + matrix_template::LOG_GROUP_PREFIX@ + fname + post1);
    // the branch of the state machine
    let ram = r.path + matrix_template::DASH@ + matrix_template::dashed(a) + matrix_template::DASH@
        + decimal(m as nat);
    let resource = replace_chars(r.display_name + l.dashed + decimal(m as nat), matrix_template::name_noise(), seq![]);
    let b = seq![
        matrix_template::MEMORY_BRANCH_0@, ram, matrix_template::MEMORY_BRANCH_1@, ram,
        matrix_template::MEMORY_BRANCH_2@, ram, matrix_template::MEMORY_BRANCH_3@,
        matrix_template::COLD_START_0@, ram, matrix_template::COLD_START_1@, ram,
        matrix_template::COLD_START_2@, resource, matrix_template::COLD_START_3@,
        p.bucket_name, matrix_template::COLD_START_4@, matrix_template::code_key(r.path, matrix_template::dashed(a)),
        matrix_template::COLD_START_5@,
        matrix_template::RUNTIME_STATE_0@, ram, matrix_template::RUNTIME_STATE_1@, ram,
        matrix_template::RUNTIME_STATE_2@, resource, matrix_template::RUNTIME_STATE_3@,
        matrix_template::WAIT_STATE_0@, ram, matrix_template::WAIT_STATE_1@, ram, matrix_template::WAIT_STATE_2@,
        matrix_template::LOG_EXTRACTOR_0@, ram, matrix_template::LOG_EXTRACTOR_1@, ram,
        matrix_template::LOG_EXTRACTOR_2@, matrix_template::LOG_GROUP_PREFIX@, matrix_template::FUNCTION_PREFIX@,
        ram, matrix_template::LOG_EXTRACTOR_3@,
        matrix_template::LOG_PROCESSOR_STATE_0@, ram, matrix_template::LOG_PROCESSOR_STATE_1@,
    ];
    assert(matrix_template::memory_branch(p, r, a, l, m) == concat_all(b));
    lemma_concat_all_split(b, 34);
    let rest = b.skip(34);
    lemma_concat_all_three(rest);
    lemma_concat_all_front(rest.skip(3));
    let pre2 = concat_all(b.take(34));
    let post2 = concat_all(rest.skip(3).drop_first());
    assert(rest.skip(3)[0] == ram);
    assert(matrix_template::FUNCTION_PREFIX@ + ram =~= fname);
    assert(matrix_template::memory_branch(p, r, a, l, m)
        =~= pre2 + matrix_template::LOG_EXTRACTOR_2@ + matrix_template::LOG_GROUP_PREFIX@ + fname + post2);
}

/// The positions of a key among the first `n` keys depend on those keys only.
proof fn lemma_positions_prefix(k1: Seq<(Seq<char>, Seq<char>, u16)>, k2: Seq<(Seq<char>, Seq<char>, u16)>, k: (Seq<char>, Seq<char>, u16), n: nat)
    requires
        n <= k1.len(),
        n <= k2.len(),
        forall|i: int| 0 <= i < n ==> k1[i] == k2[i],
    ensures
        positions(k1, k, n) == positions(k2, k, n),
    decreases n,
{
    if n > 0 {
        lemma_positions_prefix(k1, k2, k, (n - 1) as nat);
    }
}

/// The positions of a key among the keys of `xs` followed by the first `n` of `ys`.
proof fn lemma_positions_concat(xs: Seq<RunKey>, ys: Seq<RunKey>, k: (Seq<char>, Seq<char>, u16), n: nat)
    requires
        n <= ys.len(),
        xs.len() + ys.len() <= usize::MAX,
    ensures
        positions(run_keys(xs + ys), k, xs.len() + n)
            == positions(run_keys(xs), k, xs.len()) + positions(run_keys(ys), k, n).map_values(
                |i: usize| (i + xs.len()) as usize,
            ),
    decreases n,
{
    let kxy = run_keys(xs + ys);
    let kx = run_keys(xs);
    let ky = run_keys(ys);
    let shift = |i: usize| (i + xs.len()) as usize;
    if n == 0 {
        assert forall|i: int| 0 <= i < xs.len() implies kxy[i] == kx[i] by {
            assert((xs + ys)[i] == xs[i]);
        }
        lemma_positions_prefix(kxy, kx, k, xs.len());
        assert(positions(ky, k, 0).map_values(shift) =~= Seq::<usize>::empty());
        assert(positions(kx, k, xs.len()) + Seq::<usize>::empty() =~= positions(kx, k, xs.len()));
    } else {
        lemma_positions_concat(xs, ys, k, (n - 1) as nat);
        let before = positions(ky, k, (n - 1) as nat);
        assert((xs + ys)[xs.len() + n - 1] == ys[n - 1]);
        assert(kxy[xs.len() + n - 1] == ky[n - 1]);
        assert(((xs.len() + n - 1) as nat) == xs.len() + (n - 1) as nat);
        if ky[n - 1] == k {
            assert(before.push((n - 1) as usize).map_values(shift)
                =~= before.map_values(shift).push((xs.len() + n - 1) as usize));
            assert(positions(kxy, k, xs.len() + n) =~= positions(kx, k, xs.len())
                + positions(ky, k, n).map_values(shift));
        }
    }
}

/// Grouping two lists of runs one after the other files under each runtime, architecture
/// and memory size the runs of the first list there, followed by those of the second,
/// whose positions come after the whole first list.
pub proof fn law_grouping_of_concatenation(
    xs: Seq<RunKey>,
    ys: Seq<RunKey>,
    gx: Seq<Group<String, ArchitectureGroups>>,
    gy: Seq<Group<String, ArchitectureGroups>>,
    gxy: Seq<Group<String, ArchitectureGroups>>,
)
    requires
        xs.len() + ys.len() <= usize::MAX,
        forall|k: (Seq<char>, Seq<char>, u16)| #[trigger] runs_in(gx, k) == positions(run_keys(xs), k, xs.len()),
        forall|k: (Seq<char>, Seq<char>, u16)| #[trigger] runs_in(gy, k) == positions(run_keys(ys), k, ys.len()),
        forall|k: (Seq<char>, Seq<char>, u16)| #[trigger] runs_in(gxy, k)
            == positions(run_keys(xs + ys), k, (xs + ys).len()),
    ensures
        forall|k: (Seq<char>, Seq<char>, u16)| #[trigger] runs_in(gxy, k)
            == runs_in(gx, k) + runs_in(gy, k).map_values(|i: usize| (i + xs.len()) as usize),
{
    assert forall|k: (Seq<char>, Seq<char>, u16)| #[trigger] runs_in(gxy, k)
        == runs_in(gx, k) + runs_in(gy, k).map_values(|i: usize| (i + xs.len()) as usize) by {
        lemma_positions_concat(xs, ys, k, ys.len());
        assert((xs + ys).len() == xs.len() + ys.len());
    }
}

/// The objects of a page, none when it has no contents.
pub open spec fn page_items<T>(contents: Option<Seq<T>>) -> Seq<T> {
    match contents {
        Some(c) => c,
        None => Seq::<T>::empty(),
    }
}

/// The objects of the first `n` pages, one page after another.
pub open spec fn gathered<T>(pages: Seq<Option<Seq<T>>>, n: nat) -> Seq<T>
    decreases n,
{
    if n == 0 || n > pages.len() {
        Seq::<T>::empty()
    } else {
        gathered(pages, (n - 1) as nat) + page_items(pages[n - 1])
    }
}

/// A listing that starts empty and takes in the pages one by one, as `Listing::on_page`
/// does, ends up with the objects of every page, in the order of the pages.
pub proof fn law_listing_gathers_every_page<T>(pages: Seq<Option<Seq<T>>>, states: Seq<ListingView<T>>)
    requires
        states.len() == pages.len() + 1,
        states[0].items == Seq::<T>::empty(),
        forall|i: int| 0 <= i < pages.len() ==> #[trigger] states[i + 1].items == states[i].items + page_items(pages[i]),
    ensures
        forall|i: int| 0 <= i < states.len() ==> #[trigger] states[i].items == gathered(pages, i as nat),
{
    assert forall|i: int| 0 <= i < states.len() implies #[trigger] states[i].items == gathered(pages, i as nat) by {
        lemma_gathered_prefix(pages, states, i as nat);
    }
}

proof fn lemma_gathered_prefix<T>(pages: Seq<Option<Seq<T>>>, states: Seq<ListingView<T>>, n: nat)
    requires
        states.len() == pages.len() + 1,
        n < states.len(),
        states[0].items == Seq::<T>::empty(),
        forall|i: int| 0 <= i < pages.len() ==> #[trigger] states[i + 1].items == states[i].items + page_items(pages[i]),
    ensures
        states[n as int].items == gathered(pages, n),
    decreases n,
{
    if n > 0 {
        lemma_gathered_prefix(pages, states, (n - 1) as nat);
        assert(states[(n - 1) + 1].items == states[n - 1].items + page_items(pages[n - 1]));
    }
}

} // verus!
