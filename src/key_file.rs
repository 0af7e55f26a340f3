//! Secrets given as `NAME=value` lines, and which source wins.
use vstd::prelude::*;
use crate::provider::key_name_of;
use crate::provider::Provider;
use crate::text::push_char;

verus! {

/// The position of the first `c` in `s`.
pub open spec fn index_of(s: Seq<char>, c: char) -> Option<int>
    decreases s.len(),
{
    if s.len() == 0 {
        None
    } else if s[0] == c {
        Some(0)
    } else {
        match index_of(s.drop_first(), c) {
            Some(i) => Some(i + 1),
            None => None,
        }
    }
}

/// One line, without its `\n`: a trailing `\r` is dropped; `NAME=value`
/// gives the text before the first `=` and the text after it up to the next
/// `=`; a line without `=` gives nothing.
pub open spec fn key_line_entry(line: Seq<char>) -> Option<(Seq<char>, Seq<char>)> {
    let l = if line.len() > 0 && line.last() == '\r' {
        line.drop_last()
    } else {
        line
    };
    match index_of(l, '=') {
        Some(i) => {
            let rest = l.subrange(i + 1, l.len() as int);
            let value = match index_of(rest, '=') {
                Some(j) => rest.subrange(0, j),
                None => rest,
            };
            Some((l.subrange(0, i), value))
        },
        None => None,
    }
}

pub open spec fn with_entry(es: Seq<(Seq<char>, Seq<char>)>, line: Seq<char>) -> Seq<(Seq<char>, Seq<char>)> {
    match key_line_entry(line) {
        Some(e) => es.push(e),
        None => es,
    }
}

/// The unfinished line and the entries of the finished lines of `t`.
pub open spec fn scan_lines(t: Seq<char>) -> (Seq<char>, Seq<(Seq<char>, Seq<char>)>)
    decreases t.len(),
{
    if t.len() == 0 {
        (Seq::empty(), Seq::empty())
    } else {
        let before = scan_lines(t.drop_last());
        if t.last() == '\n' {
            (Seq::empty(), with_entry(before.1, before.0))
        } else {
            (before.0.push(t.last()), before.1)
        }
    }
}

/// The entries of a key file, in the order of its lines.
pub open spec fn key_file_entries(t: Seq<char>) -> Seq<(Seq<char>, Seq<char>)> {
    let s = scan_lines(t);
    if s.0.len() > 0 {
        with_entry(s.1, s.0)
    } else {
        s.1
    }
}

pub open spec fn entries_view(v: Seq<(String, String)>) -> Seq<(Seq<char>, Seq<char>)> {
    v.map_values(|p: (String, String)| (p.0@, p.1@))
}

proof fn lemma_index_found(s: Seq<char>, c: char, i: int)
    requires
        0 <= i < s.len(),
        s[i] == c,
        forall|j: int| 0 <= j < i ==> s[j] != c,
    ensures
        index_of(s, c) == Some(i),
    decreases i,
{
    if i > 0 {
        lemma_index_found(s.drop_first(), c, i - 1);
    }
}

proof fn lemma_index_absent(s: Seq<char>, c: char)
    requires
        forall|j: int| 0 <= j < s.len() ==> s[j] != c,
    ensures
        index_of(s, c) is None,
    decreases s.len(),
{
    if s.len() > 0 {
        lemma_index_absent(s.drop_first(), c);
    }
}

fn chars_of(s: &str) -> (r: Vec<char>)
    ensures
        r@ == s@,
{
    let mut out: Vec<char> = Vec::new();
    for c in it: s.chars()
        invariant
            it.seq() == s@,
            out@ == it.seq().subrange(0, it.index() as int),
    {
        out.push(c);
        assert(out@ =~= it.seq().subrange(0, it.index() + 1));
    }
    assert(s@.subrange(0, s@.len() as int) =~= s@);
    out
}

fn text_between(v: &Vec<char>, from: usize, to: usize) -> (r: String)
    requires
        from <= to <= v@.len(),
    ensures
        r@ == v@.subrange(from as int, to as int),
{
    let mut out = String::new();
    let mut i = from;
    while i < to
        invariant
            from <= i <= to <= v@.len(),
            out@ == v@.subrange(from as int, i as int),
        decreases to - i,
    {
        push_char(&mut out, v[i]);
        assert(out@ =~= v@.subrange(from as int, i + 1));
        i = i + 1;
    }
    out
}

/// The first `c` at or after `from`, before `to`.
fn find_char(v: &Vec<char>, from: usize, to: usize, c: char) -> (r: Option<usize>)
    requires
        from <= to <= v@.len(),
    ensures
        match r {
            Some(i) => from <= i < to && index_of(v@.subrange(from as int, to as int), c) == Some(i - from),
            None => index_of(v@.subrange(from as int, to as int), c) is None,
        },
{
    let ghost s = v@.subrange(from as int, to as int);
    let mut i = from;
    while i < to
        invariant
            from <= i <= to <= v@.len(),
            s == v@.subrange(from as int, to as int),
            forall|j: int| 0 <= j < i - from ==> s[j] != c,
        decreases to - i,
    {
        if v[i] == c {
            proof {
                lemma_index_found(s, c, i - from);
            }
            return Some(i);
        }
        i = i + 1;
    }
    proof {
        lemma_index_absent(s, c);
    }
    None
}

fn line_entry(line: &str) -> (r: Option<(String, String)>)
    ensures
        match r {
            Some((k, v)) => key_line_entry(line@) == Some((k@, v@)),
            None => key_line_entry(line@) is None,
        },
{
    let chars = chars_of(line);
    let mut end = chars.len();
    if end > 0 && chars[end - 1] == '\r' {
        end = end - 1;
    }
    let ghost l = chars@.subrange(0, end as int);
    assert(l =~= if line@.len() > 0 && line@.last() == '\r' { line@.drop_last() } else { line@ });
    match find_char(&chars, 0, end, '=') {
        Some(i) => {
            let ghost rest = l.subrange(i + 1, l.len() as int);
            assert(chars@.subrange(i + 1, end as int) =~= rest);
            let key = text_between(&chars, 0, i);
            let value = match find_char(&chars, i + 1, end, '=') {
                Some(j) => {
                    assert(chars@.subrange(i + 1, j as int) =~= rest.subrange(0, j - (i + 1)));
                    text_between(&chars, i + 1, j)
                },
                None => text_between(&chars, i + 1, end),
            };
            assert(key@ =~= l.subrange(0, i as int));
            Some((key, value))
        },
        None => None,
    }
}

/// The entries of a key file (see `key_file_entries`).
pub fn parse_key_file(content: &str) -> (r: Vec<(String, String)>)
    ensures
        entries_view(r@) == key_file_entries(content@),
{
    let mut entries: Vec<(String, String)> = Vec::new();
    let mut line = String::new();
    for c in it: content.chars()
        invariant
            it.seq() == content@,
            (line@, entries_view(entries@)) == scan_lines(it.seq().subrange(0, it.index() as int)),
    {
        let ghost done_part = it.seq().subrange(0, it.index() as int);
        assert(it.seq().subrange(0, it.index() + 1).drop_last() =~= done_part);
        if c == '\n' {
            let ghost before = entries_view(entries@);
            match line_entry(line.as_str()) {
                Some(e) => {
                    entries.push(e);
                    assert(entries_view(entries@) =~= before.push((e.0@, e.1@)));
                },
                None => {},
            }
            line = String::new();
        } else {
            push_char(&mut line, c);
        }
    }
    assert(content@.subrange(0, content@.len() as int) =~= content@);
    if line.as_str().unicode_len() > 0 {
        let ghost before = entries_view(entries@);
        match line_entry(line.as_str()) {
            Some(e) => {
                entries.push(e);
                assert(entries_view(entries@) =~= before.push((e.0@, e.1@)));
            },
            None => {},
        }
    }
    entries
}

/// The value of the last entry named `name`: in a key file a later line
/// overrides an earlier one.
pub open spec fn last_value(entries: Seq<(Seq<char>, Seq<char>)>, name: Seq<char>) -> Option<Seq<char>>
    decreases entries.len(),
{
    if entries.len() == 0 {
        None
    } else if entries.last().0 == name {
        Some(entries.last().1)
    } else {
        last_value(entries.drop_last(), name)
    }
}

/// The secret for `name`: the environment's value where there is one, else
/// the key file's.
pub fn select_secret(from_environment: Option<String>, file: &Vec<(String, String)>, name: &str) -> (r: Option<String>)
    ensures
        from_environment is Some ==> r == from_environment,
        from_environment is None ==> crate::json::opt_view(r) == last_value(entries_view(file@), name@),
{
    if from_environment.is_some() {
        return from_environment;
    }
    let ghost all = entries_view(file@);
    let mut i = file.len();
    assert(all.take(i as int) =~= all);
    while i > 0
        invariant
            from_environment is None,
            i <= file@.len(),
            all == entries_view(file@),
            last_value(all, name@) == last_value(all.take(i as int), name@),
        decreases i,
    {
        let ghost prefix = all.take(i as int);
        assert(prefix.drop_last() =~= all.take(i - 1));
        assert(prefix.last() == (file@[i - 1].0@, file@[i - 1].1@));
        if crate::json::same_text(file[i - 1].0.as_str(), name) {
            return Some(file[i - 1].1.clone());
        }
        i = i - 1;
    }
    None
}

/// The vendors whose secrets are looked up, in this order; the custom
/// provider comes last, under the shared `OTHER_KEY` name.
pub fn key_providers() -> (r: Vec<Provider>)
    ensures
        r@.len() == 14,
        forall|i: int| 0 <= i < 13 ==> !(#[trigger] r@[i] is Other),
        r@[13] is Other,
        forall|i: int, j: int| 0 <= i < j < 14 ==> key_name_of(#[trigger] r@[i]) != key_name_of(#[trigger] r@[j]),
{
    let r = vec![
        Provider::Amazon,
        Provider::Azure,
        Provider::Cerebras,
        Provider::DeepInfra,
        Provider::ElevenLabs,
        Provider::Fireworks,
        Provider::FriendliAI,
        Provider::Google,
        Provider::Groq,
        Provider::Hyperbolic,
        Provider::Nebius,
        Provider::Novita,
        Provider::OpenAI,
        Provider::Other(String::new()),
    ];
    proof {
        reveal_strlit("AMAZON_KEY");
        reveal_strlit("AZURE_KEY");
        reveal_strlit("CEREBRAS_KEY");
        reveal_strlit("DEEPINFRA_KEY");
        reveal_strlit("ELEVENLABS_KEY");
        reveal_strlit("FIREWORKS_KEY");
        reveal_strlit("FRIENDLIAI_KEY");
        reveal_strlit("GOOGLE_KEY");
        reveal_strlit("GROQ_KEY");
        reveal_strlit("HYPERBOLIC_KEY");
        reveal_strlit("NEBIUS_KEY");
        reveal_strlit("NOVITA_KEY");
        reveal_strlit("OPENAI_KEY");
        reveal_strlit("OTHER_KEY");
        assert forall|i: int, j: int| 0 <= i < j < 14 implies key_name_of(#[trigger] r@[i]) != key_name_of(#[trigger] r@[j]) by {
            let a = key_name_of(r@[i]);
            let b = key_name_of(r@[j]);
            if a.len() == b.len() {
                assert(a[0] != b[0] || a[1] != b[1] || a[2] != b[2]);
            }
        }
    }
    r
}

} // verus!
