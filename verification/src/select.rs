//! The sheet selector: resolves the user's sheet specification (a comma
//! list of 1-based indices) against the workbook's sheet name list. Tokens
//! that do not parse as an index in range are silently skipped; if nothing
//! matched, every sheet is processed in native order.
use vstd::prelude::*;

verus! {

/// The comma-separated tokens of a specification string. The empty string
/// yields one empty token.
pub open spec fn spec_tokens(s: Seq<char>) -> Seq<Seq<char>>
    decreases s.len(),
{
    if s.len() == 0 {
        seq![Seq::<char>::empty()]
    } else if s[0] == ',' {
        seq![Seq::<char>::empty()] + spec_tokens(s.drop_first())
    } else {
        let rest = spec_tokens(s.drop_first());
        seq![seq![s[0]] + rest[0]] + rest.drop_first()
    }
}

pub proof fn lemma_tokens_nonempty(s: Seq<char>)
    ensures
        spec_tokens(s).len() >= 1,
    decreases s.len(),
{
    if s.len() != 0 {
        lemma_tokens_nonempty(s.drop_first());
    }
}

/// The value of a digit string, most significant digit first.
pub open spec fn spec_digits_val(s: Seq<char>) -> int
    decreases s.len(),
{
    if s.len() == 0 {
        0
    } else {
        spec_digits_val(s.drop_last()) * 10 + (s.last() as u32 - 48)
    }
}

pub open spec fn spec_all_digits(s: Seq<char>) -> bool {
    forall|k: int| 0 <= k < s.len() ==> 48 <= (#[trigger] s[k]) as u32 <= 57
}

/// How a token parses as an unsigned machine integer: an optional leading
/// plus sign, then one or more decimal digits, with a value that fits.
pub open spec fn spec_parse_usize(t: Seq<char>) -> Option<int> {
    let body = if t.len() > 0 && t[0] == '+' {
        t.drop_first()
    } else {
        t
    };
    if body.len() > 0 && spec_all_digits(body) && spec_digits_val(body) <= usize::MAX {
        Some(spec_digits_val(body))
    } else {
        None
    }
}

proof fn lemma_digits_val_nonneg(s: Seq<char>)
    requires
        spec_all_digits(s),
    ensures
        spec_digits_val(s) >= 0,
    decreases s.len(),
{
    if s.len() > 0 {
        assert(spec_all_digits(s.drop_last()));
        lemma_digits_val_nonneg(s.drop_last());
    }
}

proof fn lemma_digits_val_mono(s: Seq<char>, i: int)
    requires
        spec_all_digits(s),
        0 <= i <= s.len(),
    ensures
        spec_digits_val(s.take(i)) <= spec_digits_val(s),
    decreases s.len() - i,
{
    if i < s.len() {
        let t = s.take(i + 1);
        assert(t.drop_last() =~= s.take(i));
        assert(spec_all_digits(t));
        lemma_digits_val_nonneg(s.take(i));
        assert(spec_digits_val(t) == spec_digits_val(s.take(i)) * 10 + (t.last() as u32 - 48));
        lemma_digits_val_mono(s, i + 1);
        assert(s.take(s.len() as int) =~= s);
    } else {
        assert(s.take(i) =~= s);
    }
}

/// Split a specification string on commas.
pub fn split_commas(s: &str) -> (r: Vec<Vec<char>>)
    ensures
        r.deep_view() == spec_tokens(s@),
{
    let n: usize = s.unicode_len();
    let mut done: Vec<Vec<char>> = Vec::new();
    let mut cur: Vec<char> = Vec::new();
    let mut j: usize = 0;
    proof {
        assert(s@.skip(0) =~= s@);
        lemma_tokens_nonempty(s@);
        assert(done.deep_view() =~~= Seq::<Seq<char>>::empty());
        assert(spec_tokens(s@) =~~= done.deep_view() + seq![cur@ + spec_tokens(s@)[0]]
            + spec_tokens(s@).drop_first());
    }
    while j < n
        invariant
            j <= n,
            n == s@.len(),
            spec_tokens(s@) == done.deep_view() + seq![cur@ + spec_tokens(s@.skip(j as int))[0]]
                + spec_tokens(s@.skip(j as int)).drop_first(),
        decreases n - j,
    {
        let ghost rem = s@.skip(j as int);
        proof {
            assert(rem[0] == s@[j as int]);
            assert(rem.drop_first() =~= s@.skip(j as int + 1));
            lemma_tokens_nonempty(s@.skip(j as int + 1));
        }
        let c = s.get_char(j);
        if c == ',' {
            let ghost old_done = done.deep_view();
            let ghost old_cur = cur@;
            done.push(cur);
            cur = Vec::new();
            proof {
                assert(done.deep_view() =~~= old_done + seq![old_cur]);
                let next = spec_tokens(s@.skip(j as int + 1));
                assert(spec_tokens(rem) =~~= seq![Seq::<char>::empty()] + next);
                assert(old_done + seq![old_cur + spec_tokens(rem)[0]] + spec_tokens(
                    rem,
                ).drop_first() =~~= done.deep_view() + seq![cur@ + next[0]] + next.drop_first());
            }
        } else {
            let ghost old_cur = cur@;
            cur.push(c);
            proof {
                let next = spec_tokens(s@.skip(j as int + 1));
                assert(spec_tokens(rem) =~~= seq![seq![rem[0]] + next[0]] + next.drop_first());
                assert(old_cur + spec_tokens(rem)[0] =~~= cur@ + next[0]);
                assert(done.deep_view() + seq![old_cur + spec_tokens(rem)[0]] + spec_tokens(
                    rem,
                ).drop_first() =~~= done.deep_view() + seq![cur@ + next[0]] + next.drop_first());
            }
        }
        j = j + 1;
    }
    proof {
        assert(s@.skip(n as int) =~= Seq::<char>::empty());
        assert(spec_tokens(Seq::<char>::empty()) =~~= seq![Seq::<char>::empty()]);
    }
    let ghost old_done = done.deep_view();
    let ghost old_cur = cur@;
    done.push(cur);
    proof {
        assert(done.deep_view() =~~= old_done + seq![old_cur]);
        assert(spec_tokens(s@) =~~= done.deep_view());
    }
    done
}

/// Parse one token as an unsigned machine integer.
pub fn parse_index(t: &Vec<char>) -> (r: Option<usize>)
    ensures
        match r {
            Some(n) => spec_parse_usize(t@) == Some(n as int),
            None => spec_parse_usize(t@) is None,
        },
{
    let mut i: usize = 0;
    if t.len() > 0 && t[0] == '+' {
        i = 1;
    }
    let ghost p = i as int;
    let ghost body = t@.skip(p);
    proof {
        if p == 1 {
            assert(body =~= t@.drop_first());
        } else {
            assert(body =~= t@);
        }
    }
    if i == t.len() {
        return None;
    }
    let mut acc: usize = 0;
    while i < t.len()
        invariant
            p <= i <= t@.len(),
            body == t@.skip(p),
            0 <= p <= 1,
            p == 1 ==> t@.len() > 0 && t@[0] == '+',
            p == 0 ==> !(t@.len() > 0 && t@[0] == '+'),
            spec_all_digits(t@.subrange(p, i as int)),
            acc as int == spec_digits_val(t@.subrange(p, i as int)),
        decreases t@.len() - i,
    {
        let c = t[i];
        let u = c as u32;
        let ghost pre = t@.subrange(p, i as int);
        let ghost ext = t@.subrange(p, i as int + 1);
        proof {
            assert(ext.drop_last() =~= pre);
            assert(ext.last() == t@[i as int]);
            assert(pre =~= body.take(i - p));
            assert(ext =~= body.take(i + 1 - p));
        }
        if u < 48 || u > 57 {
            proof {
                if p == 1 {
                    assert(body =~= t@.drop_first());
                } else {
                    assert(body =~= t@);
                }
                assert(body[i - p] == t@[i as int]);
                assert(!spec_all_digits(body));
            }
            return None;
        }
        let d = (u - 48) as usize;
        if acc > (usize::MAX - d) / 10 {
            proof {
                if p == 1 {
                    assert(body =~= t@.drop_first());
                } else {
                    assert(body =~= t@);
                }
                assert(spec_digits_val(ext) == acc as int * 10 + d);
                assert(acc as int * 10 + d > usize::MAX) by (nonlinear_arith)
                    requires
                        acc as int > (usize::MAX as int - d) / 10,
                        0 <= d <= 9,
                ;
                if spec_all_digits(body) {
                    lemma_digits_val_mono(body, i + 1 - p);
                    assert(spec_digits_val(body) > usize::MAX);
                }
            }
            return None;
        }
        proof {
            assert(acc as int * 10 + d <= usize::MAX) by (nonlinear_arith)
                requires
                    acc as int <= (usize::MAX as int - d) / 10,
                    0 <= d <= 9,
            ;
            assert(spec_digits_val(ext) == acc as int * 10 + d);
        }
        acc = acc * 10 + d;
        i = i + 1;
    }
    proof {
        assert(t@.subrange(p, t@.len() as int) =~= body);
        if p == 1 {
            assert(body =~= t@.drop_first());
        } else {
            assert(body =~= t@);
        }
    }
    Some(acc)
}

/// The sheet names a specification selects, in token order: for each token
/// that parses as a positive integer `n` with `n - 1` a position inside the
/// name list, the name at that position. Every other token — non-numeric,
/// zero, or out of range — is silently skipped.
pub open spec fn spec_picks(tokens: Seq<Seq<char>>, names: Seq<Seq<char>>) -> Seq<Seq<char>>
    decreases tokens.len(),
{
    if tokens.len() == 0 {
        Seq::empty()
    } else {
        let rest = spec_picks(tokens.drop_first(), names);
        match spec_parse_usize(tokens[0]) {
            Some(n) => {
                if 1 <= n && n - 1 < names.len() {
                    seq![names[n - 1]] + rest
                } else {
                    rest
                }
            },
            None => rest,
        }
    }
}

/// The definitive processing order: the selected names if any token
/// matched, otherwise every sheet in native workbook order.
pub open spec fn spec_order(sheet_spec: Seq<char>, names: Seq<Seq<char>>) -> Seq<Seq<char>> {
    let p = spec_picks(spec_tokens(sheet_spec), names);
    if p.len() > 0 {
        p
    } else {
        names
    }
}

/// A specification in which no token names a position inside the workbook
/// selects every sheet, in native order.
pub proof fn lemma_no_match_selects_all(sheet_spec: Seq<char>, names: Seq<Seq<char>>)
    requires
        forall|k: int|
            0 <= k < spec_tokens(sheet_spec).len() ==> match spec_parse_usize(
                #[trigger] spec_tokens(sheet_spec)[k],
            ) {
                Some(n) => n == 0 || n - 1 >= names.len(),
                None => true,
            },
    ensures
        spec_order(sheet_spec, names) == names,
{
    lemma_picks_empty(spec_tokens(sheet_spec), names);
}

proof fn lemma_picks_empty(tokens: Seq<Seq<char>>, names: Seq<Seq<char>>)
    requires
        forall|k: int|
            0 <= k < tokens.len() ==> match spec_parse_usize(#[trigger] tokens[k]) {
                Some(n) => n == 0 || n - 1 >= names.len(),
                None => true,
            },
    ensures
        spec_picks(tokens, names).len() == 0,
    decreases tokens.len(),
{
    if tokens.len() > 0 {
        assert(forall|k: int|
            0 <= k < tokens.drop_first().len() ==> tokens.drop_first()[k] == tokens[k + 1]);
        lemma_picks_empty(tokens.drop_first(), names);
    }
}

/// Resolve a specification string against the sheet name list.
pub fn select_sheets(sheet_spec: &String, names: &Vec<String>) -> (r: Vec<String>)
    ensures
        r.deep_view() == spec_order(sheet_spec@, names.deep_view()),
{
    let tokens = split_commas(sheet_spec.as_str());
    let mut picks: Vec<String> = Vec::new();
    let mut k: usize = 0;
    proof {
        assert(tokens.deep_view().skip(0) =~~= tokens.deep_view());
        assert(picks.deep_view() =~~= Seq::<Seq<char>>::empty());
        assert(picks.deep_view() + spec_picks(tokens.deep_view(), names.deep_view())
            =~~= spec_picks(tokens.deep_view(), names.deep_view()));
    }
    while k < tokens.len()
        invariant
            k <= tokens@.len(),
            spec_picks(tokens.deep_view(), names.deep_view()) == picks.deep_view() + spec_picks(
                tokens.deep_view().skip(k as int),
                names.deep_view(),
            ),
        decreases tokens@.len() - k,
    {
        let ghost tdv = tokens.deep_view();
        let ghost ndv = names.deep_view();
        let ghost remt = tdv.skip(k as int);
        proof {
            assert(remt[0] == tdv[k as int]);
            assert(remt.drop_first() =~~= tdv.skip(k as int + 1));
            assert(tokens@[k as int].deep_view() =~= tokens@[k as int]@);
            assert(remt[0] == tokens@[k as int]@);
        }
        let ghost old_picks = picks.deep_view();
        match parse_index(&tokens[k]) {
            Some(n) => {
                if n >= 1 && n - 1 < names.len() {
                    let idx = n - 1;
                    picks.push(names[idx].clone());
                    proof {
                        assert(picks.deep_view() =~~= old_picks + seq![ndv[idx as int]]);
                        assert(spec_picks(remt, ndv) == seq![ndv[idx as int]] + spec_picks(
                            remt.drop_first(),
                            ndv,
                        ));
                        assert(old_picks + spec_picks(remt, ndv) =~~= picks.deep_view()
                            + spec_picks(tdv.skip(k as int + 1), ndv));
                    }
                } else {
                    proof {
                        assert(spec_picks(remt, ndv) == spec_picks(remt.drop_first(), ndv));
                        assert(old_picks + spec_picks(remt, ndv) =~~= picks.deep_view()
                            + spec_picks(tdv.skip(k as int + 1), ndv));
                    }
                }
            },
            None => {
                proof {
                    assert(spec_picks(remt, ndv) == spec_picks(remt.drop_first(), ndv));
                    assert(old_picks + spec_picks(remt, ndv) =~~= picks.deep_view() + spec_picks(
                        tdv.skip(k as int + 1),
                        ndv,
                    ));
                }
            },
        }
        k = k + 1;
    }
    proof {
        assert(tokens.deep_view().skip(tokens@.len() as int) =~~= Seq::<Seq<char>>::empty());
    }
    if picks.len() > 0 {
        picks
    } else {
        let mut all: Vec<String> = Vec::new();
        let mut k: usize = 0;
        while k < names.len()
            invariant
                k <= names@.len(),
                all@.len() == k,
                forall|i: int| 0 <= i < k ==> (#[trigger] all@[i])@ == names@[i]@,
            decreases names@.len() - k,
        {
            all.push(names[k].clone());
            k = k + 1;
        }
        proof {
            assert(all.deep_view() =~~= names.deep_view());
        }
        all
    }
}

} // verus!
