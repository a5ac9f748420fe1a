//! Prompt-boundary framing: removal of the artifacts that the prompt byte
//! leaves at the start of a line read.
//!
//! The player signals readiness with a single prompt byte. When lines are
//! read back to back, that byte — and stray leading spaces — can be echoed
//! at the start of the next line, which would corrupt value parsing if kept.

use vstd::prelude::*;

verus! {

/// The byte used to prompt a client for a command — the ASCII code of
/// `'>'` — and the terminator of a listing block. [`trim_artifacts`]
/// speaks of the same byte as a character.
pub const PROMPT: u8 = 62;

/// `s` stripped of every leading prompt or space character.
pub open spec fn trim_artifacts(s: Seq<char>) -> Seq<char>
    decreases s.len(),
{
    if s.len() > 0 && (s[0] == '>' || s[0] == ' ') {
        trim_artifacts(s.drop_first())
    } else {
        s
    }
}

proof fn lemma_trim_artifacts_at(s: Seq<char>, i: int)
    requires
        0 <= i <= s.len(),
        forall|k: int| 0 <= k < i ==> (#[trigger] s[k] == '>' || s[k] == ' '),
        i == s.len() || !(s[i] == '>' || s[i] == ' '),
    ensures
        trim_artifacts(s) == s.subrange(i, s.len() as int),
    decreases i,
{
    if i == 0 {
        assert(s.subrange(0, s.len() as int) =~= s);
    } else {
        lemma_trim_artifacts_at(s.drop_first(), i - 1);
        assert(s.drop_first().subrange(i - 1, s.drop_first().len() as int) =~= s.subrange(
            i,
            s.len() as int,
        ));
    }
}

fn artifact_char(c: char) -> (b: bool)
    ensures
        b == (c == '>' || c == ' '),
{
    c == '>' || c == ' '
}

/// Removes any instances of the prompt character along with any leading
/// space characters from the start of the string.
pub fn trim_output(buf: &mut String)
    ensures
        final(buf)@ == trim_artifacts(old(buf)@),
{
    let n = buf.as_str().unicode_len();
    let mut a: usize = 0;
    while a < n && artifact_char(buf.as_str().get_char(a))
        invariant
            n == buf@.len(),
            buf@ == old(buf)@,
            0 <= a <= n,
            forall|k: int| 0 <= k < a ==> (#[trigger] buf@[k] == '>' || buf@[k] == ' '),
        decreases n - a,
    {
        a = a + 1;
    }
    proof {
        lemma_trim_artifacts_at(buf@, a as int);
    }
    let r = String::from_str(buf.as_str().substring_char(a, n));
    *buf = r;
}

/// Law: artifact trimming is complete and touches only the front — the
/// trimmed line never begins with a prompt character or a space, and it is
/// a suffix of the original line.
pub proof fn lemma_trim_artifacts_complete(s: Seq<char>)
    ensures
        ({
            let t = trim_artifacts(s);
            &&& t.len() > 0 ==> t[0] != '>' && t[0] != ' '
            &&& t.len() <= s.len()
            &&& t == s.subrange(s.len() - t.len(), s.len() as int)
        }),
    decreases s.len(),
{
    let t = trim_artifacts(s);
    if s.len() > 0 && (s[0] == '>' || s[0] == ' ') {
        lemma_trim_artifacts_complete(s.drop_first());
        assert(s.drop_first().subrange(s.drop_first().len() - t.len(), s.drop_first().len() as int)
            =~= s.subrange(s.len() - t.len(), s.len() as int));
    } else {
        assert(s.subrange(s.len() - s.len(), s.len() as int) =~= s);
    }
}

} // verus!
