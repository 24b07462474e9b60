//! Callback errors and the comma-separated text a callback button carries.

use vstd::prelude::*;

verus! {

#[verifier::external_type_specification]
#[verifier::external_body]
pub struct ExAnyhowError(anyhow::Error);

/// Why a callback could not be handled.
#[derive(Debug)]
pub enum CallbackError {
    /// The UUID at the head of the callback text did not parse.
    UUidParseError(uuid::Error),
    /// The callback itself failed.
    CallbackFunctionError(anyhow::Error),
    /// No callback is registered under the UUID.
    CallbackNotFound,
    /// The callback query carried no text.
    InvalidCallbackData,
}

/// The pieces of `s` between commas, as `str::split(",")` yields them: one
/// more piece than there are commas, empty pieces included.
pub open spec fn segments(s: Seq<char>) -> Seq<Seq<char>>
    decreases s.len(),
{
    if s.len() == 0 {
        seq![Seq::<char>::empty()]
    } else {
        let init = segments(s.drop_last());
        if s.last() == ',' {
            init.push(Seq::<char>::empty())
        } else {
            init.update(init.len() - 1, init.last().push(s.last()))
        }
    }
}

/// The texts of a sequence of strings.
pub open spec fn texts(v: Seq<String>) -> Seq<Seq<char>> {
    Seq::new(v.len(), |i: int| v[i]@)
}

/// There is always at least one piece.
pub proof fn lemma_segments_nonempty(s: Seq<char>)
    ensures
        segments(s).len() >= 1,
    decreases s.len(),
{
    if s.len() > 0 {
        lemma_segments_nonempty(s.drop_last());
    }
}

/// A text without commas is a single piece.
pub proof fn lemma_segments_no_comma(s: Seq<char>)
    requires
        !s.contains(','),
    ensures
        segments(s) == seq![s],
    decreases s.len(),
{
    if s.len() > 0 {
        let init = s.drop_last();
        assert(!init.contains(',')) by {
            if init.contains(',') {
                let i = choose|i: int| 0 <= i < init.len() && init[i] == ',';
                assert(s[i] == ',');
            }
        }
        lemma_segments_no_comma(init);
        assert(s.last() != ',') by {
            assert(s[s.len() - 1] == s.last());
        }
        assert(init.push(s.last()) =~= s);
        assert(segments(s) =~= seq![s]);
    } else {
        assert(s =~= Seq::<char>::empty());
    }
}

/// A comma-free head, a comma, then `b`: the head is the first piece and
/// the pieces of `b` follow.
pub proof fn lemma_segments_after_head(a: Seq<char>, b: Seq<char>)
    requires
        !a.contains(','),
    ensures
        segments(a + seq![','] + b) == seq![a] + segments(b),
    decreases b.len(),
{
    let s = a + seq![','] + b;
    if b.len() == 0 {
        lemma_segments_no_comma(a);
        assert(s.drop_last() =~= a);
        assert(s.last() == ',');
        assert(segments(s) =~= seq![a] + segments(b));
    } else {
        lemma_segments_after_head(a, b.drop_last());
        lemma_segments_nonempty(b.drop_last());
        assert(s.drop_last() =~= a + seq![','] + b.drop_last());
        assert(s.last() == b.last());
        let x = segments(b.drop_last());
        if b.last() == ',' {
            assert(segments(s) =~= seq![a] + segments(b));
        } else {
            assert((seq![a] + x).update(x.len() as int, x.last().push(b.last())) =~= seq![a]
                + x.update(x.len() - 1, x.last().push(b.last())));
            assert(segments(s) =~= seq![a] + segments(b));
        }
    }
}

/// Splits `s` at every comma, as `str::split(",")` does.
pub fn split_commas(s: &str) -> (parts: Vec<String>)
    ensures
        texts(parts@) == segments(s@),
{
    let n = s.unicode_len();
    let mut parts: Vec<String> = Vec::new();
    let mut start: usize = 0;
    let mut i: usize = 0;
    proof {
        assert(s@.take(0) =~= Seq::<char>::empty());
        assert(texts(parts@).push(s@.subrange(0, 0)) =~= seq![Seq::<char>::empty()]);
    }
    while i < n
        invariant
            n == s@.len(),
            start <= i <= n,
            texts(parts@).push(s@.subrange(start as int, i as int)) == segments(s@.take(i as int)),
        decreases n - i,
    {
        let c = s.get_char(i);
        proof {
            assert(s@.take(i + 1).drop_last() =~= s@.take(i as int));
            assert(s@.take(i + 1).last() == c);
            lemma_segments_nonempty(s@.take(i as int));
        }
        if c == ',' {
            let piece = String::from_str(s.substring_char(start, i));
            let ghost before = texts(parts@);
            parts.push(piece);
            proof {
                assert(texts(parts@) =~= before.push(s@.subrange(start as int, i as int)));
                assert(s@.subrange(i + 1, i + 1) =~= Seq::<char>::empty());
            }
            start = i + 1;
        } else {
            proof {
                assert(s@.subrange(start as int, i + 1) =~= s@.subrange(start as int, i as int).push(c));
            }
        }
        i = i + 1;
        proof {
            let t = texts(parts@);
            assert(t.push(s@.subrange(start as int, i as int)) =~= segments(s@.take(i as int)));
        }
    }
    let last = String::from_str(s.substring_char(start, n));
    let ghost before = texts(parts@);
    parts.push(last);
    proof {
        assert(s@.take(n as int) =~= s@);
        assert(texts(parts@) =~= before.push(s@.subrange(start as int, n as int)));
    }
    parts
}

/// The arguments a callback receives: the pieces of its callback text after
/// the first one, which is the UUID.
pub fn callback_args(data: &str) -> (args: Vec<String>)
    ensures
        texts(args@) == segments(data@).drop_first(),
{
    let mut parts = split_commas(data);
    proof {
        lemma_segments_nonempty(data@);
    }
    let ghost before = parts@;
    parts.remove(0);
    proof {
        assert(texts(parts@) =~= texts(before).drop_first());
    }
    parts
}

} // verus!
