//! Hurl variables files: one per declared server, holding `key=value` lines.
//! Merging writes new values over old ones of the same key and appends the
//! rest, so a regenerated file keeps what the user added by hand.

use vstd::prelude::*;
use crate::document::Document;
use crate::text::{
    chars_of, find_char, push_all, slice_chars, spec_find_char, spec_replace, str_replace,
    string_from_chars,
};

verus! {

/// One variables file: its name and its `key=value` pairs in order.
#[derive(Debug, PartialEq, Eq)]
pub struct VariableFile {
    pub name: String,
    pub key_vals: Vec<(String, String)>,
}

/// Extra variables the user asked for: header variables as key-value pairs.
#[derive(Debug, PartialEq, Eq)]
pub struct CustomVariables {
    pub headers: Vec<(String, String)>,
}

impl Default for CustomVariables {
    /// No extra variables.
    fn default() -> (r: CustomVariables)
        ensures
            r.headers@.len() == 0,
    {
        CustomVariables { headers: Vec::new() }
    }
}

/// The variables files of a document: one per server.
#[derive(Debug, PartialEq, Eq)]
pub struct VariableFiles {
    pub files: Vec<VariableFile>,
}

/// The models of a sequence of key-value pairs.
pub open spec fn kvs_model(s: Seq<(String, String)>) -> Seq<(Seq<char>, Seq<char>)>
    decreases s,
{
    if s.len() == 0 {
        Seq::empty()
    } else {
        kvs_model(s.drop_last()).push((s.last().0@, s.last().1@))
    }
}

/// The model of a sequence of key-value pairs is elementwise.
pub proof fn lemma_kvs_model(s: Seq<(String, String)>)
    ensures
        kvs_model(s).len() == s.len(),
        forall|i: int|
            0 <= i < s.len() ==> kvs_model(s)[i] == ((#[trigger] s[i]).0@, s[i].1@),
    decreases s,
{
    if s.len() > 0 {
        lemma_kvs_model(s.drop_last());
        assert(forall|i: int| 0 <= i < s.len() - 1 ==> s.drop_last()[i] == #[trigger] s[i]);
    }
}

/// Appending distributes over the key-value model.
pub proof fn lemma_kvs_model_add(a: Seq<(String, String)>, b: Seq<(String, String)>)
    ensures
        kvs_model(a + b) == kvs_model(a) + kvs_model(b),
    decreases b,
{
    if b.len() == 0 {
        assert(a + b =~= a);
        assert(kvs_model(a) + kvs_model(b) =~= kvs_model(a));
    } else {
        lemma_kvs_model_add(a, b.drop_last());
        assert((a + b).drop_last() =~= a + b.drop_last());
        assert((a + b).last() == b.last());
        assert(kvs_model(a) + kvs_model(b) =~= (kvs_model(a) + kvs_model(b.drop_last())).push(
            (b.last().0@, b.last().1@),
        ));
    }
}

/// The text of one `key=value` line.
pub open spec fn spec_kv_text(kv: (Seq<char>, Seq<char>)) -> Seq<char> {
    kv.0 + seq!['='] + kv.1
}

/// The text of a variables file: its `key=value` lines joined by newlines.
pub open spec fn spec_contents(s: Seq<(Seq<char>, Seq<char>)>) -> Seq<char>
    decreases s,
{
    if s.len() == 0 {
        Seq::empty()
    } else {
        spec_contents(s.drop_last()) + (if s.len() > 1 {
            seq!['\n']
        } else {
            Seq::empty()
        }) + spec_kv_text(s.last())
    }
}

/// The key and value read from one line: the key before the first `=`, the
/// value between the first and second `=` or the rest where there is no
/// second.  A line without `=` is all key and empty value.
pub open spec fn spec_kv_of_line(line: Seq<char>) -> (Seq<char>, Seq<char>) {
    let p = spec_find_char(line, '=', 0);
    if p == line.len() {
        (line, Seq::empty())
    } else {
        (line.subrange(0, p), line.subrange(p + 1, spec_find_char(line, '=', p + 1)))
    }
}

/// The key-value pairs read from the lines of `s` starting at `i`.
pub open spec fn spec_kvs_of(s: Seq<char>, i: int) -> Seq<(Seq<char>, Seq<char>)>
    decreases s.len() - i,
{
    if i < 0 || i > s.len() {
        Seq::empty()
    } else {
        let p0 = spec_find_char(s, '\n', i);
        let p = if p0 < i || p0 > s.len() {
            s.len() as int
        } else {
            p0
        };
        let kv = spec_kv_of_line(s.subrange(i, p));
        if p >= s.len() {
            seq![kv]
        } else {
            seq![kv] + spec_kvs_of(s, p + 1)
        }
    }
}

/// Whether key `k` occurs among the pairs.
pub open spec fn spec_key_in(s: Seq<(Seq<char>, Seq<char>)>, k: Seq<char>) -> bool {
    exists|i: int| 0 <= i < s.len() && (#[trigger] s[i]).0 == k
}

/// The pairs of `a` whose key does not occur in `b`, in order.
pub open spec fn spec_filter_kvs(
    a: Seq<(Seq<char>, Seq<char>)>,
    b: Seq<(Seq<char>, Seq<char>)>,
) -> Seq<(Seq<char>, Seq<char>)>
    decreases a,
{
    if a.len() == 0 {
        Seq::empty()
    } else {
        let r = spec_filter_kvs(a.drop_last(), b);
        if spec_key_in(b, a.last().0) {
            r
        } else {
            r.push(a.last())
        }
    }
}

/// The name a server URL gives its variables file: the scheme dropped and
/// every slash turned into an underscore.
pub open spec fn spec_server_name(url: Seq<char>) -> Seq<char> {
    spec_replace(spec_replace(spec_replace(url, "https://"@, ""@), "http://"@, ""@), "/"@, "_"@)
}

/// The models of a sequence of variables files: name and pairs of each.
pub open spec fn files_model(s: Seq<VariableFile>) -> Seq<
    (Seq<char>, Seq<(Seq<char>, Seq<char>)>),
>
    decreases s,
{
    if s.len() == 0 {
        Seq::empty()
    } else {
        files_model(s.drop_last()).push((s.last().name@, kvs_model(s.last().key_vals@)))
    }
}

fn kv_of_line(line: &Vec<char>) -> (r: (String, String))
    ensures
        (r.0@, r.1@) == spec_kv_of_line(line@),
{
    let p = find_char(line, '=', 0);
    proof {
        lemma_find_char_bounds(line@, '=', 0);
    }
    let n = line.len();
    if p == n {
        let empty: Vec<char> = Vec::new();
        (string_from_chars(line), string_from_chars(&empty))
    } else {
        let q = find_char(line, '=', p + 1);
        proof {
            lemma_find_char_bounds(line@, '=', p + 1);
        }
        let key = slice_chars(line, 0, p);
        let val = slice_chars(line, p + 1, q);
        (string_from_chars(&key), string_from_chars(&val))
    }
}

/// The position found for a character lies between `from` and the length.
proof fn lemma_find_char_bounds(s: Seq<char>, c: char, from: int)
    requires
        0 <= from <= s.len(),
    ensures
        from <= spec_find_char(s, c, from) <= s.len(),
    decreases s.len() - from,
{
    if from < s.len() && s[from] != c {
        lemma_find_char_bounds(s, c, from + 1);
    }
}

fn kvs_of_chars(cs: &Vec<char>, i: usize) -> (r: Vec<(String, String)>)
    requires
        i <= cs@.len(),
    ensures
        kvs_model(r@) == spec_kvs_of(cs@, i as int),
    decreases cs@.len() - i,
{
    let p = find_char(cs, '\n', i);
    proof {
        lemma_find_char_bounds(cs@, '\n', i as int);
    }
    let line = slice_chars(cs, i, p);
    let kv = kv_of_line(&line);
    if p >= cs.len() {
        let mut out: Vec<(String, String)> = Vec::new();
        out.push(kv);
        proof {
            assert(kvs_model(Seq::<(String, String)>::empty()) =~= Seq::<
                (Seq<char>, Seq<char>),
            >::empty());
            assert(out@.drop_last() =~= Seq::<(String, String)>::empty());
            assert(kvs_model(out@) =~= seq![spec_kv_of_line(cs@.subrange(i as int, p as int))]);
        }
        out
    } else {
        let mut rest = kvs_of_chars(cs, p + 1);
        let ghost restview = rest@;
        rest.insert(0, kv);
        proof {
            lemma_kvs_model(rest@);
            lemma_kvs_model(restview);
            assert(kvs_model(rest@).len() == 1 + restview.len());
            assert forall|k: int| 0 <= k < kvs_model(rest@).len() implies kvs_model(rest@)[k] == (
            seq![spec_kv_of_line(cs@.subrange(i as int, p as int))] + spec_kvs_of(
                cs@,
                p + 1,
            ))[k] by {
                assert(kvs_model(rest@)[k] == ((rest@[k]).0@, rest@[k].1@));
                if k > 0 {
                    assert(rest@[k] == restview[k - 1]);
                    assert(kvs_model(restview)[k - 1] == ((restview[k - 1]).0@, restview[k
                        - 1].1@));
                }
            }
            assert(kvs_model(rest@) =~= seq![
                spec_kv_of_line(cs@.subrange(i as int, p as int)),
            ] + spec_kvs_of(cs@, p + 1));
        }
        rest
    }
}

impl VariableFile {
    /// The file's text: its `key=value` lines joined by newlines.
    pub fn get_contents(self) -> (r: String)
        ensures
            r@ == spec_contents(kvs_model(self.key_vals@)),
    {
        let mut out: Vec<char> = Vec::new();
        let mut i: usize = 0;
        let kvs = self.key_vals;
        proof {
            assert(kvs@.subrange(0, 0) =~= Seq::<(String, String)>::empty());
        }
        while i < kvs.len()
            invariant
                i <= kvs@.len(),
                out@ == spec_contents(kvs_model(kvs@.subrange(0, i as int))),
            decreases kvs@.len() - i,
        {
            let ghost pre = kvs@.subrange(0, i as int);
            if i > 0 {
                out.push('\n');
            }
            let kc = chars_of(kvs[i].0.as_str());
            push_all(&mut out, &kc);
            out.push('=');
            let vc = chars_of(kvs[i].1.as_str());
            push_all(&mut out, &vc);
            i = i + 1;
            proof {
                let pre1 = kvs@.subrange(0, i as int);
                assert(pre1.drop_last() =~= pre);
                assert(pre1.last() == kvs@[i - 1]);
                assert(kvs_model(pre1).drop_last() =~= kvs_model(pre));
                lemma_kvs_model(pre1);
                assert(kvs_model(pre1).last() == (kvs@[i - 1].0@, kvs@[i - 1].1@));
                assert(kvs_model(pre1).len() == i);
                assert(out@ =~= spec_contents(kvs_model(pre1)));
            }
        }
        proof {
            assert(kvs@.subrange(0, kvs@.len() as int) =~= kvs@);
        }
        string_from_chars(&out)
    }

    /// Reads a variables file from its text: one `key=value` pair per line.
    pub fn from_string(name: String, str_file: String) -> (r: VariableFile)
        ensures
            r.name@ == name@,
            kvs_model(r.key_vals@) == spec_kvs_of(str_file@, 0),
    {
        let cs = chars_of(str_file.as_str());
        let key_vals = kvs_of_chars(&cs, 0);
        VariableFile { name, key_vals }
    }

    /// The empty variables file of a name.
    pub fn empty(name: String) -> (r: VariableFile)
        ensures
            r.name@ == name@,
            r.key_vals@.len() == 0,
    {
        VariableFile { name, key_vals: Vec::new() }
    }

    /// Merges `other` into this file: pairs whose key reappears in `other`
    /// are dropped, then every pair of `other` is appended, so new values
    /// win and new keys extend the file.  Files of different names do not
    /// merge; the receiver stays as it is.
    pub fn merge(self, other: VariableFile) -> (r: VariableFile)
        ensures
            self.name@ != other.name@ ==> r == self,
            self.name@ == other.name@ ==> r.name@ == self.name@ && kvs_model(r.key_vals@)
                == spec_filter_kvs(kvs_model(self.key_vals@), kvs_model(other.key_vals@))
                + kvs_model(other.key_vals@),
    {
        if !(self.name == other.name) {
            return self;
        }
        let ghost selfkvs = kvs_model(self.key_vals@);
        let ghost otherkvs = kvs_model(other.key_vals@);
        proof {
            lemma_kvs_model(self.key_vals@);
            lemma_kvs_model(other.key_vals@);
        }
        let mut out: Vec<(String, String)> = Vec::new();
        let kvs = self.key_vals;
        let mut i: usize = 0;
        proof {
            assert(kvs@.subrange(0, 0) =~= Seq::<(String, String)>::empty());
        }
        while i < kvs.len()
            invariant
                i <= kvs@.len(),
                selfkvs == kvs_model(kvs@),
                otherkvs == kvs_model(other.key_vals@),
                kvs_model(out@) == spec_filter_kvs(kvs_model(kvs@.subrange(0, i as int)),
                    otherkvs),
            decreases kvs@.len() - i,
        {
            let ghost pre = kvs@.subrange(0, i as int);
            let ghost outpre = out@;
            if !key_in_kvs(&other.key_vals, &kvs[i].0) {
                let pair = (kvs[i].0.clone(), kvs[i].1.clone());
                out.push(pair);
                proof {
                    assert(out@.drop_last() =~= outpre);
                }
            }
            i = i + 1;
            proof {
                let pre1 = kvs@.subrange(0, i as int);
                assert(pre1.drop_last() =~= pre);
                assert(pre1.last() == kvs@[i - 1]);
                assert(kvs_model(pre1).drop_last() =~= kvs_model(pre));
                assert(kvs_model(pre1).last() == (kvs@[i - 1].0@, kvs@[i - 1].1@));
            }
        }
        proof {
            assert(kvs@.subrange(0, kvs@.len() as int) =~= kvs@);
        }
        let ghost outview = out@;
        let mut tail = other.key_vals;
        let ghost tailview = tail@;
        out.append(&mut tail);
        proof {
            lemma_kvs_model_add(outview, tailview);
        }
        VariableFile { name: self.name, key_vals: out }
    }
}

fn key_in_kvs(kvs: &Vec<(String, String)>, k: &String) -> (r: bool)
    ensures
        r == spec_key_in(kvs_model(kvs@), k@),
{
    proof {
        lemma_kvs_model(kvs@);
    }
    let mut i: usize = 0;
    while i < kvs.len()
        invariant
            i <= kvs@.len(),
            kvs_model(kvs@).len() == kvs@.len(),
            forall|j: int|
                0 <= j < kvs@.len() ==> kvs_model(kvs@)[j] == ((#[trigger] kvs@[j]).0@,
                kvs@[j].1@),
            forall|j: int| 0 <= j < i ==> (#[trigger] kvs_model(kvs@)[j]).0 != k@,
        decreases kvs@.len() - i,
    {
        if kvs[i].0 == *k {
            proof {
                assert(kvs_model(kvs@)[i as int].0 == k@);
            }
            return true;
        }
        i = i + 1;
    }
    false
}

/// The key-value pairs of one server's file: the host first, then the
/// user's header variables.
pub fn build_key_vals(url: &String, custom_variables: &CustomVariables) -> (r: Vec<(
    String,
    String,
)>)
    ensures
        kvs_model(r@) == seq![("host"@, url@)] + kvs_model(custom_variables.headers@),
{
    let mut out: Vec<(String, String)> = Vec::new();
    out.push(("host".to_owned(), url.clone()));
    proof {
        assert(kvs_model(Seq::<(String, String)>::empty()) =~= Seq::<
            (Seq<char>, Seq<char>),
        >::empty());
        assert(out@.drop_last() =~= Seq::<(String, String)>::empty());
        assert(kvs_model(out@) =~= seq![("host"@, url@)]);
    }
    let ghost outview = out@;
    let headers = &custom_variables.headers;
    let mut i: usize = 0;
    while i < headers.len()
        invariant
            i <= headers@.len(),
            kvs_model(out@) == seq![("host"@, url@)] + kvs_model(headers@.subrange(0, i as int)),
        decreases headers@.len() - i,
    {
        let ghost pre = headers@.subrange(0, i as int);
        let ghost outpre = out@;
        let pair = (headers[i].0.clone(), headers[i].1.clone());
        out.push(pair);
        i = i + 1;
        proof {
            let pre1 = headers@.subrange(0, i as int);
            assert(pre1.drop_last() =~= pre);
            assert(pre1.last() == headers@[i - 1]);
            assert(kvs_model(pre1).drop_last() =~= kvs_model(pre));
            assert(out@.drop_last() =~= outpre);
            assert(kvs_model(out@) =~= seq![("host"@, url@)] + kvs_model(pre1));
        }
    }
    proof {
        assert(headers@.subrange(0, headers@.len() as int) =~= headers@);
    }
    out
}

impl VariableFiles {
    /// One variables file per declared server: named for the server's URL
    /// with the scheme dropped and slashes turned into underscores, holding
    /// the host and the user's header variables.
    pub fn from_spec(doc: &Document, custom_variables: CustomVariables) -> (r: VariableFiles)
        ensures
            r.files@.len() == doc.servers@.len(),
            forall|i: int|
                0 <= i < doc.servers@.len() ==> files_model(r.files@)[i] == (spec_server_name(
                    (#[trigger] doc.servers@[i])@,
                ), seq![("host"@, doc.servers@[i]@)] + kvs_model(custom_variables.headers@)),
    {
        let mut files: Vec<VariableFile> = Vec::new();
        let servers = &doc.servers;
        let mut i: usize = 0;
        while i < servers.len()
            invariant
                i <= servers@.len(),
                files@.len() == i,
                files_model(files@).len() == i,
                forall|k: int|
                    0 <= k < i ==> files_model(files@)[k] == (spec_server_name(
                        (#[trigger] servers@[k])@,
                    ), seq![("host"@, servers@[k]@)] + kvs_model(custom_variables.headers@)),
            decreases servers@.len() - i,
        {
            let ghost filespre = files@;
            let https = "https://".to_owned();
            let http = "http://".to_owned();
            let slash = "/".to_owned();
            let under = "_".to_owned();
            let nothing = "".to_owned();
            let name = str_replace(&servers[i], &https, &nothing);
            let name = str_replace(&name, &http, &nothing);
            let name = str_replace(&name, &slash, &under);
            let key_vals = build_key_vals(&servers[i], &custom_variables);
            files.push(VariableFile { name, key_vals });
            i = i + 1;
            proof {
                assert(files@.drop_last() =~= filespre);
                lemma_files_model_len(files@);
                lemma_files_model_len(filespre);
                assert(forall|k: int|
                    0 <= k < i - 1 ==> files@[k] == #[trigger] filespre[k]);
                assert(files_model(files@)[i - 1] == ((files@[i - 1]).name@, kvs_model(
                    files@[i - 1].key_vals@,
                )));
            }
        }
        VariableFiles { files }
    }
}

/// The model of a sequence of variables files is elementwise over name and
/// pairs.
proof fn lemma_files_model_len(s: Seq<VariableFile>)
    ensures
        files_model(s).len() == s.len(),
        forall|i: int|
            0 <= i < s.len() ==> files_model(s)[i] == ((#[trigger] s[i]).name@, kvs_model(
                s[i].key_vals@,
            )),
    decreases s,
{
    if s.len() > 0 {
        lemma_files_model_len(s.drop_last());
        assert(forall|i: int| 0 <= i < s.len() - 1 ==> s.drop_last()[i] == #[trigger] s[i]);
    }
}

} // verus!
