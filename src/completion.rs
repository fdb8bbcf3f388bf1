//! Tab completion of the command line: a command name while the first word
//! is typed, a stored label after `get` or `remove`.
use vstd::prelude::*;
use vstd::string::*;
use vstd::utf8::{char_is_scalar, encode_scalar, encode_utf8};

verus! {

/// Whether `c` has Unicode's White_Space property.
pub open spec fn is_white_space(c: char) -> bool {
    let v = c as u32;
    ||| 0x9 <= v <= 0xd
    ||| v == 0x20
    ||| v == 0x85
    ||| v == 0xa0
    ||| v == 0x1680
    ||| 0x2000 <= v <= 0x200a
    ||| v == 0x2028
    ||| v == 0x2029
    ||| v == 0x202f
    ||| v == 0x205f
    ||| v == 0x3000
}

/// The words of `s`: its maximal runs of characters that are not white
/// space, in order.
pub open spec fn words(s: Seq<char>) -> Seq<Seq<char>>
    decreases s.len(),
{
    if s.len() == 0 {
        Seq::empty()
    } else {
        let w = words(s.drop_last());
        let c = s.last();
        if is_white_space(c) {
            w
        } else if s.len() >= 2 && !is_white_space(s[s.len() - 2]) {
            w.update(w.len() - 1, w.last().push(c))
        } else {
            w.push(seq![c])
        }
    }
}

/// `w` starts `s`.
pub open spec fn is_prefix(w: Seq<char>, s: Seq<char>) -> bool {
    w.len() <= s.len() && s.subrange(0, w.len() as int) == w
}

/// Commands after which a label or a length follows.
pub open spec fn takes_argument(cmd: Seq<char>) -> bool {
    cmd == "get"@ || cmd == "remove"@ || cmd == "new"@
}

/// The suggestions among `candidates` that start with `word`, in order, each
/// replacing bytes `start..end`. For commands, a whitespace is appended after
/// those that take an argument.
pub open spec fn suggestions(
    candidates: Seq<Seq<char>>,
    word: Seq<char>,
    start: usize,
    end: usize,
    for_commands: bool,
) -> Seq<(Seq<char>, usize, usize, bool)>
    decreases candidates.len(),
{
    if candidates.len() == 0 {
        Seq::empty()
    } else {
        let rest = suggestions(candidates.drop_last(), word, start, end, for_commands);
        let c = candidates.last();
        if is_prefix(word, c) {
            rest.push((c, start, end, for_commands && takes_argument(c)))
        } else {
            rest
        }
    }
}

/// Every suggestion made from `candidates` replaces bytes `start..end`.
proof fn lemma_suggestion_spans(
    candidates: Seq<Seq<char>>,
    word: Seq<char>,
    start: usize,
    end: usize,
    for_commands: bool,
)
    ensures
        forall|i: int|
            0 <= i < suggestions(candidates, word, start, end, for_commands).len() ==> (#[trigger] suggestions(
                candidates,
                word,
                start,
                end,
                for_commands,
            )[i]).1 == start && suggestions(candidates, word, start, end, for_commands)[i].2 == end,
    decreases candidates.len(),
{
    if candidates.len() > 0 {
        lemma_suggestion_spans(candidates.drop_last(), word, start, end, for_commands);
        let rest = suggestions(candidates.drop_last(), word, start, end, for_commands);
        let all = suggestions(candidates, word, start, end, for_commands);
        assert forall|i: int| 0 <= i < all.len() implies (#[trigger] all[i]).1 == start && all[i].2
            == end by {
            if i < rest.len() {
                assert(all[i] == rest[i]);
            }
        }
    }
}

/// The completions of `input`, the text before the cursor at byte `pos`.
pub open spec fn completions(
    commands: Seq<Seq<char>>,
    labels: Seq<Seq<char>>,
    input: Seq<char>,
    pos: usize,
) -> Seq<(Seq<char>, usize, usize, bool)> {
    let parts = words(input);
    let ends_with_space = input.len() > 0 && input.last() == ' ';
    let word = if ends_with_space {
        Seq::empty()
    } else if parts.len() == 2 {
        parts[1]
    } else {
        input
    };
    let start: usize = if ends_with_space {
        pos
    } else if parts.len() == 2 {
        (encode_utf8(parts[0]).len() + 1) as usize
    } else {
        0
    };
    if parts.len() == 0 || (parts.len() == 1 && !ends_with_space) {
        suggestions(commands, word, start, pos, true)
    } else if parts[0] == "get"@ || parts[0] == "remove"@ {
        suggestions(labels, word, start, pos, false)
    } else {
        Seq::empty()
    }
}

/// One suggestion: the text that replaces bytes `start..end` of the line,
/// and whether a space follows it.
pub struct Completion {
    pub value: String,
    pub start: usize,
    pub end: usize,
    pub append_whitespace: bool,
}

impl View for Completion {
    type V = (Seq<char>, usize, usize, bool);

    open spec fn view(&self) -> (Seq<char>, usize, usize, bool) {
        (self.value@, self.start, self.end, self.append_whitespace)
    }
}

/// The views of a list of strings.
pub open spec fn string_views(v: Seq<String>) -> Seq<Seq<char>> {
    v.map_values(|s: String| s@)
}

/// Completes command names and, after `get` or `remove`, stored labels.
pub struct CommandAndLabelCompleter {
    commands: Vec<String>,
    labels: Vec<String>,
}

proof fn lemma_words_len(s: Seq<char>)
    ensures
        words(s).len() <= s.len(),
        s.len() > 0 && !is_white_space(s.last()) ==> words(s).len() > 0,
    decreases s.len(),
{
    if s.len() > 0 {
        lemma_words_len(s.drop_last());
    }
}

proof fn lemma_encode_concat(a: Seq<char>, b: Seq<char>)
    ensures
        encode_utf8(a + b) == encode_utf8(a) + encode_utf8(b),
    decreases a.len(),
{
    if a.len() > 0 {
        lemma_encode_concat(a.drop_first(), b);
        assert((a + b).drop_first() =~= a.drop_first() + b);
        assert(encode_utf8(a) + encode_utf8(b) =~= encode_scalar(a[0] as u32) + (encode_utf8(
            a.drop_first(),
        ) + encode_utf8(b)));
    } else {
        assert(a + b =~= b);
    }
}

proof fn lemma_encode_push(a: Seq<char>, c: char)
    ensures
        encode_utf8(a.push(c)).len() == encode_utf8(a).len() + encode_scalar(c as u32).len(),
{
    let one = seq![c];
    lemma_encode_concat(a, one);
    assert(a.push(c) =~= a + one);
    assert(one.drop_first() =~= Seq::<char>::empty());
    assert(encode_utf8(one.drop_first()) == Seq::<u8>::empty());
    assert(encode_utf8(one) == encode_scalar(one[0] as u32) + encode_utf8(one.drop_first()));
    assert(encode_utf8(one) =~= encode_scalar(c as u32));
}

/// Number of bytes UTF-8 takes for `c`.
fn utf8_width(c: char) -> (r: usize)
    ensures
        r == encode_scalar(c as u32).len(),
        1 <= r <= 4,
{
    proof {
        char_is_scalar(c);
    }
    let v = c as u32;
    if v <= 0x7f {
        1
    } else if v <= 0x7ff {
        2
    } else if v <= 0xffff {
        3
    } else {
        4
    }
}

/// Whether `c` is white space in Unicode's sense.
fn is_whitespace(c: char) -> (r: bool)
    ensures
        r == is_white_space(c),
{
    let v = c as u32;
    (0x9 <= v && v <= 0xd) || v == 0x20 || v == 0x85 || v == 0xa0 || v == 0x1680 || (0x2000 <= v
        && v <= 0x200a) || v == 0x2028 || v == 0x2029 || v == 0x202f || v == 0x205f || v == 0x3000
}

/// The characters of `s`.
fn chars_of(s: &str) -> (r: Vec<char>)
    ensures
        r@ == s@,
{
    let n = s.unicode_len();
    let mut out: Vec<char> = Vec::new();
    let mut i: usize = 0;
    while i < n
        invariant
            n == s@.len(),
            i <= n,
            out@ == s@.subrange(0, i as int),
        decreases n - i,
    {
        out.push(s.get_char(i));
        i = i + 1;
    }
    assert(out@ =~= s@);
    out
}

/// Whether `s` starts with `w`.
fn starts_with_chars(s: &Vec<char>, w: &Vec<char>) -> (r: bool)
    ensures
        r == is_prefix(w@, s@),
{
    if w.len() > s.len() {
        return false;
    }
    let mut i: usize = 0;
    while i < w.len()
        invariant
            w@.len() <= s@.len(),
            i <= w@.len(),
            s@.subrange(0, i as int) == w@.subrange(0, i as int),
        decreases w@.len() - i,
    {
        if s[i] != w[i] {
            assert(s@.subrange(0, w@.len() as int)[i as int] != w@[i as int]);
            return false;
        }
        assert(s@.subrange(0, i + 1) =~= s@.subrange(0, i as int).push(s@[i as int]));
        assert(w@.subrange(0, i + 1) =~= w@.subrange(0, i as int).push(w@[i as int]));
        i = i + 1;
    }
    assert(w@.subrange(0, w@.len() as int) =~= w@);
    true
}

/// Whether `s` holds exactly the characters of `t`.
fn same_chars(s: &Vec<char>, t: &str) -> (r: bool)
    ensures
        r == (s@ == t@),
{
    let t = chars_of(t);
    if s.len() != t.len() {
        return false;
    }
    let r = starts_with_chars(s, &t);
    proof {
        if r {
            assert(s@ =~= s@.subrange(0, t@.len() as int));
        } else if s@ == t@ {
            assert(s@.subrange(0, t@.len() as int) =~= t@);
        }
    }
    r
}

/// The suggestions among `candidates` that start with `word`.
fn suggest(
    candidates: &Vec<String>,
    word: &Vec<char>,
    start: usize,
    end: usize,
    for_commands: bool,
) -> (r: Vec<Completion>)
    ensures
        r@.map_values(|c: Completion| c@) == suggestions(
            string_views(candidates@),
            word@,
            start,
            end,
            for_commands,
        ),
{
    let mut out: Vec<Completion> = Vec::new();
    let mut i: usize = 0;
    while i < candidates.len()
        invariant
            i <= candidates@.len(),
            out@.map_values(|c: Completion| c@) == suggestions(
                string_views(candidates@.subrange(0, i as int)),
                word@,
                start,
                end,
                for_commands,
            ),
        decreases candidates@.len() - i,
    {
        let cand = chars_of(candidates[i].as_str());
        let ghost before = out@;
        proof {
            let prefix = string_views(candidates@.subrange(0, i + 1));
            assert(prefix.drop_last() =~= string_views(candidates@.subrange(0, i as int)));
            assert(prefix.last() == candidates@[i as int]@);
        }
        if starts_with_chars(&cand, word) {
            let append = for_commands && (same_chars(&cand, "get") || same_chars(&cand, "remove")
                || same_chars(&cand, "new"));
            out.push(
                Completion {
                    value: candidates[i].clone(),
                    start,
                    end,
                    append_whitespace: append,
                },
            );
            assert(out@.map_values(|c: Completion| c@) =~= before.map_values(|c: Completion| c@).push(
                out@.last()@,
            ));
        }
        i = i + 1;
    }
    assert(candidates@.subrange(0, candidates@.len() as int) =~= candidates@);
    out
}

impl CommandAndLabelCompleter {
    /// A completer over the given command names and labels.
    pub fn new(commands: Vec<String>, labels: Vec<String>) -> (r: CommandAndLabelCompleter)
        ensures
            r.spec_commands() == string_views(commands@),
            r.spec_labels() == string_views(labels@),
    {
        CommandAndLabelCompleter { commands, labels }
    }

    /// The command names offered.
    pub closed spec fn spec_commands(&self) -> Seq<Seq<char>> {
        string_views(self.commands@)
    }

    /// The labels offered.
    pub closed spec fn spec_labels(&self) -> Seq<Seq<char>> {
        string_views(self.labels@)
    }

    /// The completions of `line` with the cursor at byte `pos`, which must
    /// fall on a character boundary.
    pub fn complete(&self, line: &str, pos: usize) -> (r: Vec<Completion>)
        requires
            pos <= line.spec_bytes().len(),
            vstd::utf8::is_char_boundary(line.spec_bytes(), pos as int),
        ensures
            r@.map_values(|c: Completion| c@) == completions(
                self.spec_commands(),
                self.spec_labels(),
                vstd::utf8::decode_utf8(line.spec_bytes().subrange(0, pos as int)),
                pos,
            ),
            forall|i: int| 0 <= i < r@.len() ==> (#[trigger] r@[i]).start <= r@[i].end && r@[i].end == pos,
    {
        let (head, _) = line.split_at(pos);
        let input = chars_of(head);
        proof {
            vstd::utf8::encode_utf8_decode_utf8(head@);
            assert(encode_utf8(head@) == line.spec_bytes().subrange(0, pos as int));
            assert(encode_utf8(input@).len() == pos);
        }
        let n = input.len();
        let mut count: usize = 0;
        let mut first: Vec<char> = Vec::new();
        let mut second: Vec<char> = Vec::new();
        let mut first_bytes: usize = 0;
        let mut scanned_bytes: usize = 0;
        let mut prev_white = true;
        let mut i: usize = 0;
        while i < n
            invariant
                n == input@.len(),
                encode_utf8(input@).len() == pos,
                i <= n,
                count == words(input@.subrange(0, i as int)).len(),
                count >= 1 ==> first@ == words(input@.subrange(0, i as int))[0],
                count >= 2 ==> second@ == words(input@.subrange(0, i as int))[1],
                count >= 1 ==> first_bytes == encode_utf8(first@).len(),
                scanned_bytes == encode_utf8(input@.subrange(0, i as int)).len(),
                first_bytes <= scanned_bytes,
                count >= 2 || (count == 1 && prev_white) ==> first_bytes < scanned_bytes,
                prev_white == (i == 0 || is_white_space(input@[i - 1])),
                i == 0 ==> count == 0,
            decreases n - i,
        {
            let c = input[i];
            let ghost p = input@.subrange(0, i as int);
            let ghost q = input@.subrange(0, i + 1);
            let width = utf8_width(c);
            proof {
                assert(q =~= p.push(c));
                assert(q.drop_last() =~= p);
                lemma_encode_push(p, c);
                lemma_encode_concat(q, input@.subrange(i + 1, n as int));
                assert(input@ =~= q + input@.subrange(i + 1, n as int));
                lemma_words_len(p);
                if i > 0 {
                    assert(q[q.len() - 2] == input@[i - 1]);
                }
            }
            scanned_bytes = scanned_bytes + width;
            let white = is_whitespace(c);
            if !white {
                if prev_white {
                    if count == 0 {
                        first = Vec::new();
                        first.push(c);
                        first_bytes = width;
                        proof {
                            assert(first@ =~= Seq::<char>::empty().push(c));
                            lemma_encode_push(Seq::<char>::empty(), c);
                        }
                    } else if count == 1 {
                        second = Vec::new();
                        second.push(c);
                        assert(second@ =~= seq![c]);
                    }
                    count = count + 1;
                } else {
                    proof {
                        lemma_words_len(p);
                    }
                    if count == 1 {
                        proof {
                            lemma_encode_push(first@, c);
                        }
                        first.push(c);
                        first_bytes = first_bytes + width;
                    } else if count == 2 {
                        second.push(c);
                    }
                }
            }
            prev_white = white;
            i = i + 1;
        }
        proof {
            assert(input@.subrange(0, n as int) =~= input@);
        }
        let ends_with_space = n > 0 && input[n - 1] == ' ';
        let empty: Vec<char> = Vec::new();
        let word = if ends_with_space {
            &empty
        } else if count == 2 {
            &second
        } else {
            &input
        };
        let start: usize = if ends_with_space {
            pos
        } else if count == 2 {
            first_bytes + 1
        } else {
            0
        };
        let r = if count == 0 || (count == 1 && !ends_with_space) {
            suggest(&self.commands, word, start, pos, true)
        } else if same_chars(&first, "get") || same_chars(&first, "remove") {
            suggest(&self.labels, word, start, pos, false)
        } else {
            Vec::new()
        };
        proof {
            lemma_suggestion_spans(string_views(self.commands@), word@, start, pos, true);
            lemma_suggestion_spans(string_views(self.labels@), word@, start, pos, false);
            assert forall|i: int| 0 <= i < r@.len() implies (#[trigger] r@[i]).start <= r@[i].end
                && r@[i].end == pos by {
                assert(r@.map_values(|c: Completion| c@)[i] == r@[i]@);
            }
        }
        r
    }
}

} // verus!
