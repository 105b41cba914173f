//! Verified text utilities: decimal rendering of numbers, repeated
//! characters, splitting a string into lines, and joining pieces with a
//! separator. Each executable function is proved to produce exactly the
//! character sequence given by its spec function.

use vstd::prelude::*;

verus! {

/// The character for a single decimal digit.
pub open spec fn dec_digit(d: nat) -> char {
    if d == 0 {
        '0'
    } else if d == 1 {
        '1'
    } else if d == 2 {
        '2'
    } else if d == 3 {
        '3'
    } else if d == 4 {
        '4'
    } else if d == 5 {
        '5'
    } else if d == 6 {
        '6'
    } else if d == 7 {
        '7'
    } else if d == 8 {
        '8'
    } else {
        '9'
    }
}

/// The decimal representation of a natural number, most significant
/// digit first, with no leading zeros (a single zero for 0).
pub open spec fn dec_str(n: nat) -> Seq<char>
    decreases n,
{
    if n < 10 {
        seq![dec_digit(n)]
    } else {
        dec_str(n / 10).push(dec_digit(n % 10))
    }
}

fn digit_str(d: usize) -> (r: &'static str)
    requires
        d < 10,
    ensures
        r@ == seq![dec_digit(d as nat)],
{
    if d == 0 {
        let r = "0";
        proof {
            reveal_strlit("0");
            assert(r@ =~= seq![dec_digit(d as nat)]);
        }
        r
    } else if d == 1 {
        let r = "1";
        proof {
            reveal_strlit("1");
            assert(r@ =~= seq![dec_digit(d as nat)]);
        }
        r
    } else if d == 2 {
        let r = "2";
        proof {
            reveal_strlit("2");
            assert(r@ =~= seq![dec_digit(d as nat)]);
        }
        r
    } else if d == 3 {
        let r = "3";
        proof {
            reveal_strlit("3");
            assert(r@ =~= seq![dec_digit(d as nat)]);
        }
        r
    } else if d == 4 {
        let r = "4";
        proof {
            reveal_strlit("4");
            assert(r@ =~= seq![dec_digit(d as nat)]);
        }
        r
    } else if d == 5 {
        let r = "5";
        proof {
            reveal_strlit("5");
            assert(r@ =~= seq![dec_digit(d as nat)]);
        }
        r
    } else if d == 6 {
        let r = "6";
        proof {
            reveal_strlit("6");
            assert(r@ =~= seq![dec_digit(d as nat)]);
        }
        r
    } else if d == 7 {
        let r = "7";
        proof {
            reveal_strlit("7");
            assert(r@ =~= seq![dec_digit(d as nat)]);
        }
        r
    } else if d == 8 {
        let r = "8";
        proof {
            reveal_strlit("8");
            assert(r@ =~= seq![dec_digit(d as nat)]);
        }
        r
    } else {
        let r = "9";
        proof {
            reveal_strlit("9");
            assert(r@ =~= seq![dec_digit(d as nat)]);
        }
        r
    }
}

/// Render a number in decimal.
pub fn usize_to_string(n: usize) -> (r: String)
    ensures
        r@ == dec_str(n as nat),
    decreases n,
{
    if n < 10 {
        digit_str(n).to_owned()
    } else {
        let mut r = usize_to_string(n / 10);
        r.append(digit_str(n % 10));
        proof {
            assert(dec_str((n / 10) as nat).push(dec_digit((n % 10) as nat)) =~= dec_str(
                (n / 10) as nat,
            ) + seq![dec_digit((n % 10) as nat)]);
        }
        r
    }
}

/// A sequence of `n` copies of the character `c`.
pub open spec fn fill(c: char, n: nat) -> Seq<char> {
    Seq::new(n, |i: int| c)
}

/// A string made of `n` copies of the one-character string `one`.
pub fn fill_str(one: &str, n: usize) -> (r: String)
    requires
        one@.len() == 1,
    ensures
        r@ == fill(one@[0], n as nat),
{
    let mut r = String::new();
    let mut i: usize = 0;
    while i < n
        invariant
            i <= n,
            one@.len() == 1,
            r@ == fill(one@[0], i as nat),
        decreases n - i,
    {
        r.append(one);
        proof {
            assert(fill(one@[0], i as nat) + one@ =~= fill(one@[0], (i + 1) as nat));
        }
        i = i + 1;
    }
    r
}

/// The string `s` repeated `n` times.
pub open spec fn rep_seq(s: Seq<char>, n: nat) -> Seq<char>
    decreases n,
{
    if n == 0 {
        Seq::empty()
    } else {
        rep_seq(s, (n - 1) as nat) + s
    }
}

/// A string made of `n` copies of `s`.
pub fn repeat_str(s: &str, n: usize) -> (r: String)
    ensures
        r@ == rep_seq(s@, n as nat),
{
    let mut r = String::new();
    let mut i: usize = 0;
    while i < n
        invariant
            i <= n,
            r@ == rep_seq(s@, i as nat),
        decreases n - i,
    {
        r.append(s);
        i = i + 1;
    }
    r
}

/// True when the string contains a newline character.
pub open spec fn has_nl(s: Seq<char>) -> bool {
    exists|j: int| 0 <= j < s.len() && s[j] == '\n'
}

/// The index of the first newline character, or the length of a string
/// without one.
pub open spec fn first_nl(s: Seq<char>) -> int
    decreases s.len(),
{
    if s.len() == 0 {
        0
    } else if s[0] == '\n' {
        0
    } else {
        1 + first_nl(s.drop_first())
    }
}

proof fn lemma_first_nl_at(s: Seq<char>, i: int)
    requires
        0 <= i < s.len(),
        s[i] == '\n',
        forall|j: int| 0 <= j < i ==> s[j] != '\n',
    ensures
        first_nl(s) == i,
    decreases i,
{
    if i == 0 {
    } else {
        assert(s.drop_first()[i - 1] == '\n');
        assert(forall|j: int| 0 <= j < i - 1 ==> s.drop_first()[j] == s[j + 1] && s[j + 1]
            != '\n');
        lemma_first_nl_at(s.drop_first(), i - 1);
    }
}

proof fn lemma_first_nl_bounds(s: Seq<char>)
    requires
        has_nl(s),
    ensures
        0 <= first_nl(s) < s.len(),
        s[first_nl(s)] == '\n',
        forall|j: int| 0 <= j < first_nl(s) ==> s[j] != '\n',
    decreases s.len(),
{
    if s[0] == '\n' {
    } else {
        let j = choose|j: int| 0 <= j < s.len() && s[j] == '\n';
        assert(s.drop_first()[j - 1] == '\n');
        assert(has_nl(s.drop_first()));
        lemma_first_nl_bounds(s.drop_first());
        assert forall|k: int| 0 <= k < first_nl(s) implies s[k] != '\n' by {
            if k > 0 {
                assert(s.drop_first()[k - 1] != '\n');
            }
        }
    }
}

/// A line with one trailing carriage return removed, if present.
pub open spec fn strip_cr(l: Seq<char>) -> Seq<char> {
    if l.len() > 0 && l.last() == '\r' {
        l.drop_last()
    } else {
        l
    }
}

/// The lines of a string, as `str::lines` produces them: split at each
/// newline, a carriage return directly before a newline is dropped, and
/// a trailing newline does not open a final empty line.
pub open spec fn split_lines(s: Seq<char>) -> Seq<Seq<char>>
    decreases s.len(),
    via split_lines_decreases
{
    if s.len() == 0 {
        Seq::empty()
    } else if !has_nl(s) {
        seq![s]
    } else {
        seq![strip_cr(s.take(first_nl(s)))] + split_lines(s.skip(first_nl(s) + 1))
    }
}

#[via_fn]
proof fn split_lines_decreases(s: Seq<char>) {
    if s.len() > 0 && has_nl(s) {
        lemma_first_nl_bounds(s);
    }
}

/// The lines of a string, each as an owned `String`.
pub fn split_lines_vec(s: &str) -> (r: Vec<String>)
    ensures
        r@.map_values(|x: String| x@) == split_lines(s@),
{
    let n = s.unicode_len();
    let mut out: Vec<String> = Vec::new();
    let mut start: usize = 0;
    let mut i: usize = 0;
    proof {
        assert(s@.skip(0) =~= s@);
        assert(out@.map_values(|x: String| x@) =~= Seq::<Seq<char>>::empty());
        assert(Seq::<Seq<char>>::empty() + split_lines(s@) =~= split_lines(s@));
    }
    while i < n
        invariant
            start <= i <= n,
            n == s@.len(),
            split_lines(s@) == out@.map_values(|x: String| x@) + split_lines(
                s@.skip(start as int),
            ),
            forall|j: int| start <= j < i ==> s@[j] != '\n',
        decreases n - i,
    {
        let c = s.get_char(i);
        if c == '\n' {
            let line = if i > start && s.get_char(i - 1) == '\r' {
                s.substring_char(start, i - 1)
            } else {
                s.substring_char(start, i)
            };
            let ghost done0 = out@.map_values(|x: String| x@);
            out.push(line.to_owned());
            proof {
                let rem = s@.skip(start as int);
                let k = i - start as int;
                assert(rem[k] == '\n');
                assert(forall|j: int| 0 <= j < k ==> rem[j] == s@[start + j] && s@[start + j]
                    != '\n');
                lemma_first_nl_at(rem, k);
                assert(has_nl(rem));
                assert(split_lines(rem) == seq![strip_cr(rem.take(k))] + split_lines(
                    rem.skip(k + 1),
                ));
                assert(rem.take(k) =~= s@.subrange(start as int, i as int));
                assert(rem.skip(k + 1) =~= s@.skip(i as int + 1));
                if i > start && s@[i as int - 1] == '\r' {
                    assert(rem.take(k).last() == '\r');
                    assert(strip_cr(rem.take(k)) =~= s@.subrange(start as int, i as int - 1));
                } else {
                    assert(strip_cr(rem.take(k)) =~= rem.take(k));
                }
                assert(line@ == strip_cr(rem.take(k)));
                assert(out@.map_values(|x: String| x@) =~= done0.push(line@));
                assert(done0 + split_lines(rem) =~= done0.push(line@) + split_lines(
                    s@.skip(i as int + 1),
                ));
            }
            start = i + 1;
        }
        i = i + 1;
    }
    proof {
        let rem = s@.skip(start as int);
        assert(forall|j: int| 0 <= j < rem.len() ==> rem[j] == s@[start + j]);
        assert(!has_nl(rem)) by {
            if has_nl(rem) {
                let j = choose|j: int| 0 <= j < rem.len() && rem[j] == '\n';
                assert(s@[start + j] == '\n');
            }
        }
    }
    if start < n {
        let last_line = s.substring_char(start, n);
        let ghost done0 = out@.map_values(|x: String| x@);
        out.push(last_line.to_owned());
        proof {
            let rem = s@.skip(start as int);
            assert(rem.len() > 0);
            assert(split_lines(rem) == seq![rem]);
            assert(last_line@ =~= rem);
            assert(out@.map_values(|x: String| x@) =~= done0.push(rem));
            assert(done0 + split_lines(rem) =~= done0.push(rem));
        }
    } else {
        proof {
            let rem = s@.skip(start as int);
            assert(rem.len() == 0);
            assert(split_lines(rem) =~= Seq::<Seq<char>>::empty());
            assert(out@.map_values(|x: String| x@) + split_lines(rem) =~= out@.map_values(
                |x: String| x@,
            ));
        }
    }
    out
}

/// The pieces joined with the separator between consecutive pieces.
pub open spec fn join_seqs(ls: Seq<Seq<char>>, sep: Seq<char>) -> Seq<char>
    decreases ls.len(),
{
    if ls.len() == 0 {
        Seq::empty()
    } else if ls.len() == 1 {
        ls[0]
    } else {
        ls[0] + sep + join_seqs(ls.drop_first(), sep)
    }
}

/// Joining one more piece appends the separator and the piece.
pub proof fn lemma_join_push(ls: Seq<Seq<char>>, sep: Seq<char>, x: Seq<char>)
    requires
        ls.len() > 0,
    ensures
        join_seqs(ls.push(x), sep) == join_seqs(ls, sep) + sep + x,
    decreases ls.len(),
{
    if ls.len() == 1 {
        assert(ls.push(x).drop_first() =~= seq![x]);
        assert(join_seqs(seq![x], sep) == x);
        assert(ls.push(x)[0] == ls[0]);
        assert(join_seqs(ls.push(x), sep) == ls[0] + sep + x);
    } else {
        lemma_join_push(ls.drop_first(), sep, x);
        assert(ls.push(x).drop_first() =~= ls.drop_first().push(x));
        assert(ls.push(x)[0] == ls[0]);
        assert(ls[0] + sep + (join_seqs(ls.drop_first(), sep) + sep + x) =~= (ls[0] + sep
            + join_seqs(ls.drop_first(), sep)) + sep + x);
    }
}

/// Join owned strings with a separator.
pub fn join_with(parts: &Vec<String>, sep: &str) -> (r: String)
    ensures
        r@ == join_seqs(parts@.map_values(|x: String| x@), sep@),
{
    let ghost all = parts@.map_values(|x: String| x@);
    let mut r = String::new();
    let mut i: usize = 0;
    while i < parts.len()
        invariant
            i <= parts.len(),
            all == parts@.map_values(|x: String| x@),
            r@ == join_seqs(all.take(i as int), sep@),
        decreases parts.len() - i,
    {
        if i > 0 {
            r.append(sep);
        }
        r.append(parts[i].as_str());
        proof {
            assert(all.take(i as int).push(all[i as int]) =~= all.take(i as int + 1));
            if i == 0 {
                assert(all.take(1) =~= seq![all[0]]);
                assert(join_seqs(seq![all[0]], sep@) == all[0]);
                assert(Seq::<char>::empty() + all[0] =~= all[0]);
            } else {
                lemma_join_push(all.take(i as int), sep@, all[i as int]);
            }
        }
        i = i + 1;
    }
    proof {
        assert(all.take(parts@.len() as int) =~= all);
    }
    r
}

} // verus!
