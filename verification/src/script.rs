use vstd::prelude::*;

use crate::chars::chars_of;

verus! {

/// `s` with every `</` written `<\/`, matches taken left to right, as
/// `str::replace("</", "<\\/")` does.
pub open spec fn escape_script_close(s: Seq<char>) -> Seq<char>
    decreases s.len(),
{
    if s.len() == 0 {
        s
    } else if s.len() >= 2 && s[0] == '<' && s[1] == '/' {
        seq!['<', '\\', '/'] + escape_script_close(s.skip(2))
    } else {
        seq![s[0]] + escape_script_close(s.drop_first())
    }
}

/// `t` with every `<\/` read back as `</`, matches taken left to right: what a
/// JavaScript string literal makes of the escape.
pub open spec fn unescape_script_close(t: Seq<char>) -> Seq<char>
    decreases t.len(),
{
    if t.len() == 0 {
        t
    } else if t.len() >= 3 && t[0] == '<' && t[1] == '\\' && t[2] == '/' {
        seq!['<', '/'] + unescape_script_close(t.skip(3))
    } else {
        seq![t[0]] + unescape_script_close(t.drop_first())
    }
}

/// Whether `s` holds the sequence `</` anywhere.
pub open spec fn contains_script_close(s: Seq<char>) -> bool {
    exists|i: int| 0 <= i < s.len() - 1 && #[trigger] s[i] == '<' && s[i + 1] == '/'
}

/// Whether `s` holds the sequence `<\/` anywhere.
pub open spec fn contains_escaped_close(s: Seq<char>) -> bool {
    exists|i: int| 0 <= i < s.len() - 2 && #[trigger] s[i] == '<' && s[i + 1] == '\\' && s[i + 2] == '/'
}

/// The escape keeps the first character, and keeps the empty string empty.
pub proof fn lemma_escape_first(s: Seq<char>)
    ensures
        escape_script_close(s).len() == 0 <==> s.len() == 0,
        s.len() > 0 ==> escape_script_close(s)[0] == s[0],
{
}

/// Whatever the input, the escaped text holds no `</`: a `<script>` block
/// that embeds it cannot be closed from inside.
pub proof fn lemma_escaped_has_no_script_close(s: Seq<char>)
    ensures
        !contains_script_close(escape_script_close(s)),
    decreases s.len(),
{
    let t = escape_script_close(s);
    if s.len() == 0 {
    } else if s.len() >= 2 && s[0] == '<' && s[1] == '/' {
        let rest = escape_script_close(s.skip(2));
        lemma_escaped_has_no_script_close(s.skip(2));
        assert(t == seq!['<', '\\', '/'] + rest);
        assert forall|i: int| 0 <= i < t.len() - 1 && #[trigger] t[i] == '<' implies t[i + 1] != '/' by {
            if i >= 3 {
                assert(t[i] == rest[i - 3]);
                assert(t[i + 1] == rest[i - 2]);
            }
        }
    } else {
        let rest = escape_script_close(s.drop_first());
        lemma_escaped_has_no_script_close(s.drop_first());
        lemma_escape_first(s.drop_first());
        assert(t == seq![s[0]] + rest);
        assert forall|i: int| 0 <= i < t.len() - 1 && #[trigger] t[i] == '<' implies t[i + 1] != '/' by {
            if i >= 1 {
                assert(t[i] == rest[i - 1]);
                assert(t[i + 1] == rest[i]);
            } else {
                assert(rest[0] == s[1]);
            }
        }
    }
}

/// Reading the escape back gives the same text back, for any text that did not
/// already hold `<\/` (serialised JSON never does: it doubles its backslashes).
pub proof fn lemma_unescape_escape(s: Seq<char>)
    requires
        !contains_escaped_close(s),
    ensures
        unescape_script_close(escape_script_close(s)) == s,
    decreases s.len(),
{
    let t = escape_script_close(s);
    if s.len() == 0 {
    } else if s.len() >= 2 && s[0] == '<' && s[1] == '/' {
        let r = s.skip(2);
        assert forall|i: int| 0 <= i < r.len() - 2 && #[trigger] r[i] == '<' implies !(r[i + 1] == '\\' && r[i + 2] == '/') by {
            assert(s[i + 2] == r[i]);
        }
        lemma_unescape_escape(r);
        let x = escape_script_close(r);
        assert(t == seq!['<', '\\', '/'] + x);
        assert(t.skip(3) =~= x);
        assert(s =~= seq!['<', '/'] + r);
    } else {
        let r = s.drop_first();
        assert forall|i: int| 0 <= i < r.len() - 2 && #[trigger] r[i] == '<' implies !(r[i + 1] == '\\' && r[i + 2] == '/') by {
            assert(s[i + 1] == r[i]);
        }
        lemma_unescape_escape(r);
        let x = escape_script_close(r);
        assert(t == seq![s[0]] + x);
        assert(t.drop_first() =~= x);
        if t.len() >= 3 && t[0] == '<' && t[1] == '\\' && t[2] == '/' {
            lemma_escape_first(r);
            assert(r[0] == '\\');
            assert(r.len() >= 2) by {
                if r.len() == 1 {
                    assert(escape_script_close(r.drop_first()).len() == 0) by {
                        lemma_escape_first(r.drop_first());
                    }
                }
            }
            lemma_escape_first(r.drop_first());
            assert(x[1] == escape_script_close(r.drop_first())[0]);
            assert(s[0] == '<' && s[1] == '\\' && s[2] == '/');
            assert(false);
        }
        assert(s =~= seq![s[0]] + r);
    }
}

/// How a JavaScript string literal reads its `\/` escapes: each backslash
/// pairs with the character after it, a `\/` pair reads as `/`, and every
/// other pair is kept as written, to be read as JavaScript reads it.
pub open spec fn read_slash_escapes(t: Seq<char>) -> Seq<char>
    decreases t.len(),
{
    if t.len() >= 2 && t[0] == '\\' {
        if t[1] == '/' {
            seq!['/'] + read_slash_escapes(t.skip(2))
        } else {
            seq!['\\', t[1]] + read_slash_escapes(t.skip(2))
        }
    } else if t.len() == 0 {
        t
    } else {
        seq![t[0]] + read_slash_escapes(t.drop_first())
    }
}

/// For every text whatever, JavaScript reads the escaped text as it reads the
/// text itself: the backslash the escape puts into `</` always pairs with the
/// `/` after it, and every pair the text already had stays a pair. Embedded
/// in the editor's script, the posts' JSON therefore denotes the same posts,
/// every character of every field unchanged.
pub proof fn lemma_escape_reads_the_same(s: Seq<char>)
    ensures
        read_slash_escapes(escape_script_close(s)) == read_slash_escapes(s),
    decreases s.len(),
{
    let t = escape_script_close(s);
    if s.len() == 0 {
    } else if s.len() >= 2 && s[0] == '<' && s[1] == '/' {
        let r = s.skip(2);
        lemma_escape_reads_the_same(r);
        let x = escape_script_close(r);
        assert(t == seq!['<', '\\', '/'] + x);
        assert(t.drop_first() =~= seq!['\\', '/'] + x);
        assert((seq!['\\', '/'] + x).skip(2) =~= x);
        assert(s.drop_first() =~= seq!['/'] + r);
        assert((seq!['/'] + r).drop_first() =~= r);
        let rx = read_slash_escapes(x);
        assert(read_slash_escapes(seq!['\\', '/'] + x) == seq!['/'] + rx);
        assert(read_slash_escapes(t) == seq!['<'] + (seq!['/'] + rx));
        assert(read_slash_escapes(seq!['/'] + r) == seq!['/'] + read_slash_escapes(r));
        assert(read_slash_escapes(s) == seq!['<'] + (seq!['/'] + read_slash_escapes(r)));
    } else if s.len() >= 2 && s[0] == '\\' {
        let s1 = s.drop_first();
        lemma_escape_first(s1);
        if s1.len() >= 2 && s1[0] == '<' && s1[1] == '/' {
            let r = s.skip(3);
            assert(s1.skip(2) =~= r);
            lemma_escape_reads_the_same(r);
            let x = escape_script_close(r);
            assert(t == seq!['\\'] + (seq!['<', '\\', '/'] + x));
            assert(t.skip(2) =~= seq!['\\', '/'] + x);
            assert((seq!['\\', '/'] + x).skip(2) =~= x);
            assert(s.skip(2) =~= seq!['/'] + r);
            assert((seq!['/'] + r).drop_first() =~= r);
            let rx = read_slash_escapes(x);
            assert(t[1] == '<');
            assert(read_slash_escapes(seq!['\\', '/'] + x) == seq!['/'] + rx);
            assert(read_slash_escapes(t) == seq!['\\', '<'] + (seq!['/'] + rx));
            assert(read_slash_escapes(seq!['/'] + r) == seq!['/'] + read_slash_escapes(r));
            assert(read_slash_escapes(s) == seq!['\\', '<'] + (seq!['/'] + read_slash_escapes(r)));
        } else {
            let r = s.skip(2);
            assert(s1.drop_first() =~= r);
            lemma_escape_reads_the_same(r);
            let x = escape_script_close(r);
            assert(t == seq!['\\'] + (seq![s[1]] + x));
            assert(t.skip(2) =~= x);
            assert(t[1] == s[1]);
        }
    } else {
        let r = s.drop_first();
        lemma_escape_reads_the_same(r);
        let x = escape_script_close(r);
        assert(t == seq![s[0]] + x);
        assert(t.drop_first() =~= x);
        if s[0] == '\\' {
            assert(s.len() == 1);
            lemma_escape_first(r);
        }
    }
}

/// Serialised JSON made safe to embed inside a `<script>` block: every `</`
/// becomes `<\/`, which a JavaScript string literal reads back as `</`.
pub fn script_safe_json(json: &str) -> (safe: String)
    ensures
        safe@ == escape_script_close(json@),
{
    let v = chars_of(json);
    let n = v.len();
    let mut out = String::new();
    let mut i: usize = 0;
    assert(v@.skip(0) =~= v@);
    while i < n
        invariant
            v@ == json@,
            n == v@.len(),
            i <= n,
            escape_script_close(json@) == out@ + escape_script_close(v@.skip(i as int)),
        decreases n - i,
    {
        let ghost rest = v@.skip(i as int);
        if i + 1 < n && v[i] == '<' && v[i + 1] == '/' {
            out.push('<');
            out.push('\\');
            out.push('/');
            proof {
                assert(rest.skip(2) =~= v@.skip(i + 2));
                assert(out@ =~= out@.subrange(0, out@.len() - 3) + seq!['<', '\\', '/']);
            }
            i = i + 2;
        } else {
            out.push(v[i]);
            proof {
                assert(rest.drop_first() =~= v@.skip(i + 1));
            }
            i = i + 1;
        }
    }
    out
}

} // verus!
