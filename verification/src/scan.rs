use std::io::Write;

use vstd::prelude::*;

use crate::errors::RfcError;
use crate::ids::{find_digit_run, first_run_start_from};
use crate::numbering::names_view;
use crate::text::{str_eq, substr_eq};

verus! {

/// Index where the final path component begins: just past the last `/`, or 0
/// where the path has none.
pub open spec fn file_name_start(s: Seq<char>) -> int
    decreases s.len(),
{
    if s.len() == 0 {
        0
    } else if s.last() == '/' {
        s.len() as int
    } else {
        file_name_start(s.drop_last())
    }
}

/// The length of `s` without its trailing separators: like std's `Path`,
/// the file-name rule ignores them, so `"123-a.md/"` names `123-a.md`.
pub open spec fn trimmed_len(s: Seq<char>) -> int
    decreases s.len(),
{
    if s.len() > 0 && s.last() == '/' {
        trimmed_len(s.drop_last())
    } else {
        s.len() as int
    }
}

/// The final component of a path in string form: what follows the last `/`
/// once trailing separators are dropped.  The dot components `.` and `..`
/// get no special treatment here; they carry no digit run and no extension,
/// so the document predicates agree with std's `Path` on them regardless.
pub open spec fn spec_file_name(s: Seq<char>) -> Seq<char> {
    let t = s.take(trimmed_len(s));
    t.subrange(file_name_start(t), t.len() as int)
}

/// The position of the last `.` of `name` that does not stand first, or
/// `None`: a lone leading dot marks a hidden file, not an extension.
pub open spec fn last_dot(name: Seq<char>) -> Option<int>
    decreases name.len(),
{
    if name.len() <= 1 {
        None
    } else if name.last() == '.' {
        Some(name.len() - 1)
    } else {
        last_dot(name.drop_last())
    }
}

/// The extension of a path: what follows the last dot of its final
/// component, if that component has a dot beyond its first character.
pub open spec fn spec_extension(s: Seq<char>) -> Option<Seq<char>> {
    let name = spec_file_name(s);
    match last_dot(name) {
        Some(d) => Some(name.subrange(d + 1, name.len() as int)),
        None => None,
    }
}

/// The fixed allow-list of recognized document extensions, matched exactly
/// and case-sensitively.
pub open spec fn spec_allowed_extension(e: Seq<char>) -> bool {
    ||| e == "txt"@
    ||| e == "md"@
    ||| e == "markdown"@
    ||| e == "rst"@
    ||| e == "adoc"@
    ||| e == "org"@
}

/// Whether the path names a recognized text document.
pub open spec fn spec_is_text_document(s: Seq<char>) -> bool {
    match spec_extension(s) {
        Some(e) => spec_allowed_extension(e),
        None => false,
    }
}

/// Whether the file name (the final path component) carries a run of three
/// or more consecutive decimal digits.
pub open spec fn spec_has_rfc_id(s: Seq<char>) -> bool {
    first_run_start_from(spec_file_name(s), 0) is Some
}

/// A proposal document: a recognized extension and an embedded digit run.
pub open spec fn spec_is_rfc_document(s: Seq<char>) -> bool {
    spec_is_text_document(s) && spec_has_rfc_id(s)
}

/// Finds the length of `s` without its trailing separators.
fn trimmed_end(s: &str) -> (r: usize)
    ensures
        r as int == trimmed_len(s@),
        r <= s@.len(),
{
    let n: usize = s.unicode_len();
    let mut k: usize = n;
    proof {
        assert(s@.take(n as int) =~= s@);
    }
    while k > 0
        invariant
            0 <= k <= n == s@.len(),
            trimmed_len(s@) == trimmed_len(s@.take(k as int)),
        ensures
            0 <= k <= n == s@.len(),
            trimmed_len(s@) == trimmed_len(s@.take(k as int)),
            k == 0 || s@[k as int - 1] != '/',
        decreases k,
    {
        let c = s.get_char(k - 1);
        if c != '/' {
            break;
        }
        proof {
            assert(s@.take(k as int).drop_last() =~= s@.take(k as int - 1));
            assert(s@.take(k as int).last() == s@[k as int - 1]);
        }
        k -= 1;
    }
    proof {
        if k == 0 {
            assert(trimmed_len(s@.take(0)) == 0);
        } else {
            assert(s@.take(k as int).last() == s@[k as int - 1]);
            assert(trimmed_len(s@.take(k as int)) == k as int);
        }
    }
    k
}

/// Finds where the final path component begins within `s[..end]`.
fn find_file_name_start_before(s: &str, end: usize) -> (r: usize)
    requires
        end <= s@.len(),
    ensures
        r as int == file_name_start(s@.take(end as int)),
        r <= end,
{
    let mut k: usize = end;
    while k > 0
        invariant
            0 <= k <= end <= s@.len(),
            file_name_start(s@.take(end as int)) == file_name_start(s@.take(k as int)),
        ensures
            0 <= k <= end <= s@.len(),
            file_name_start(s@.take(end as int)) == file_name_start(s@.take(k as int)),
            k == 0 || s@[k as int - 1] == '/',
        decreases k,
    {
        let c = s.get_char(k - 1);
        if c == '/' {
            break;
        }
        proof {
            assert(s@.take(k as int).drop_last() =~= s@.take(k as int - 1));
            assert(s@.take(k as int).last() == s@[k as int - 1]);
        }
        k -= 1;
    }
    proof {
        if k == 0 {
            assert(file_name_start(s@.take(0)) == 0);
        } else {
            assert(s@.take(k as int).last() == s@[k as int - 1]);
            assert(file_name_start(s@.take(k as int)) == k as int);
        }
    }
    k
}

/// Decides whether the path names a recognized text document: its extension
/// must be one of txt, md, markdown, rst, adoc, org.
pub fn file_is_text_document(f: &str) -> (r: bool)
    ensures
        r == spec_is_text_document(f@),
{
    let te: usize = trimmed_end(f);
    let ns: usize = find_file_name_start_before(f, te);
    let name: &str = f.substring_char(ns, te);
    proof {
        assert(name@ =~= spec_file_name(f@));
    }
    let m: usize = name.unicode_len();
    let mut k: usize = m;
    proof {
        assert(name@.take(m as int) =~= name@);
    }
    while k > 1
        invariant
            0 <= k <= m == name@.len(),
            last_dot(name@) == last_dot(name@.take(k as int)),
        ensures
            0 <= k <= m == name@.len(),
            last_dot(name@) == last_dot(name@.take(k as int)),
            k <= 1 || name@[k as int - 1] == '.',
        decreases k,
    {
        let c = name.get_char(k - 1);
        if c == '.' {
            break;
        }
        proof {
            assert(name@.take(k as int).drop_last() =~= name@.take(k as int - 1));
            assert(name@.take(k as int).last() == name@[k as int - 1]);
        }
        k -= 1;
    }
    if k <= 1 {
        proof {
            assert(last_dot(name@.take(k as int)) is None);
        }
        return false;
    }
    proof {
        assert(name@.take(k as int).last() == name@[k as int - 1]);
        assert(last_dot(name@.take(k as int)) == Some(k as int - 1));
        assert(spec_extension(f@) == Some(name@.subrange(k as int, m as int)));
    }
    let r = substr_eq(name, k, m, "txt") || substr_eq(name, k, m, "md") || substr_eq(
        name,
        k,
        m,
        "markdown",
    ) || substr_eq(name, k, m, "rst") || substr_eq(name, k, m, "adoc") || substr_eq(
        name,
        k,
        m,
        "org",
    );
    r
}

/// Decides whether the file name embeds a run of three or more consecutive
/// decimal digits.
pub fn file_has_rfc_id(f: &str) -> (r: bool)
    ensures
        r == spec_has_rfc_id(f@),
{
    let te: usize = trimmed_end(f);
    let ns: usize = find_file_name_start_before(f, te);
    let name: &str = f.substring_char(ns, te);
    proof {
        assert(name@ =~= spec_file_name(f@));
    }
    match find_digit_run(name) {
        Some(_) => true,
        None => false,
    }
}

/// Decides whether the path names a proposal document.
pub fn is_rfc_document(f: &str) -> (r: bool)
    ensures
        r == spec_is_rfc_document(f@),
{
    file_is_text_document(f) && file_has_rfc_id(f)
}

/// The subset of the paths that name proposal documents, in their original
/// order.
pub open spec fn spec_rfc_documents(paths: Seq<Seq<char>>) -> Seq<Seq<char>>
    decreases paths.len(),
{
    if paths.len() == 0 {
        Seq::empty()
    } else {
        let rest = spec_rfc_documents(paths.drop_last());
        if spec_is_rfc_document(paths.last()) {
            rest + seq![paths.last()]
        } else {
            rest
        }
    }
}

/// The scanner's output is exactly the subset of its input that names
/// proposal documents: a path appears among the results if and only if it
/// appeared among the inputs and has a recognized extension together with an
/// embedded digit run.
pub proof fn lemma_rfc_documents_membership(paths: Seq<Seq<char>>, p: Seq<char>)
    ensures
        spec_rfc_documents(paths).contains(p) <==> (paths.contains(p) && spec_is_rfc_document(p)),
    decreases paths.len(),
{
    if paths.len() > 0 {
        let rest = spec_rfc_documents(paths.drop_last());
        lemma_rfc_documents_membership(paths.drop_last(), p);
        assert(paths.contains(p) <==> (paths.drop_last().contains(p) || paths.last() == p)) by {
            if paths.contains(p) {
                let i = choose|i: int| 0 <= i < paths.len() && paths[i] == p;
                if i < paths.len() - 1 {
                    assert(paths.drop_last()[i] == p);
                }
            }
            if paths.drop_last().contains(p) {
                let i = choose|i: int| 0 <= i < paths.drop_last().len() && paths.drop_last()[i]
                    == p;
                assert(paths[i] == p);
            }
            if paths.last() == p {
                assert(paths[paths.len() - 1] == p);
            }
        }
        if spec_is_rfc_document(paths.last()) {
            assert((rest + seq![paths.last()]).contains(p) <==> (rest.contains(p) || paths.last()
                == p)) by {
                if rest.contains(p) {
                    let i = choose|i: int| 0 <= i < rest.len() && rest[i] == p;
                    assert((rest + seq![paths.last()])[i] == p);
                }
                if paths.last() == p {
                    assert((rest + seq![paths.last()])[rest.len() as int] == p);
                }
                if (rest + seq![paths.last()]).contains(p) {
                    let i = choose|i: int| 0 <= i < rest.len() + 1 && (rest + seq![paths.last()])[i]
                        == p;
                    if i < rest.len() {
                        assert(rest[i] == p);
                    }
                }
            }
        }
    }
}

/// Distinct paths filter to distinct documents: the scanner's output
/// denotes a set.
pub proof fn lemma_rfc_documents_distinct(paths: Seq<Seq<char>>)
    requires
        forall|a: int, b: int| 0 <= a < b < paths.len() ==> paths[a] != paths[b],
    ensures
        forall|a: int, b: int|
            0 <= a < b < spec_rfc_documents(paths).len() ==> spec_rfc_documents(paths)[a]
                != spec_rfc_documents(paths)[b],
    decreases paths.len(),
{
    if paths.len() > 0 {
        let prefix = paths.drop_last();
        assert forall|a: int, b: int| 0 <= a < b < prefix.len() implies prefix[a] != prefix[b] by {
            assert(prefix[a] == paths[a]);
            assert(prefix[b] == paths[b]);
        }
        lemma_rfc_documents_distinct(prefix);
        let rest = spec_rfc_documents(prefix);
        if spec_is_rfc_document(paths.last()) {
            let whole = rest + seq![paths.last()];
            assert(!rest.contains(paths.last())) by {
                if rest.contains(paths.last()) {
                    lemma_rfc_documents_membership(prefix, paths.last());
                    let a = choose|a: int| 0 <= a < prefix.len() && prefix[a] == paths.last();
                    assert(paths[a] == paths[paths.len() - 1]);
                    assert(false);
                }
            }
            assert forall|a: int, b: int| 0 <= a < b < whole.len() implies whole[a] != whole[b] by {
                if b == rest.len() {
                    assert(whole[b] == paths.last());
                    assert(whole[a] == rest[a]);
                    if whole[a] == paths.last() {
                        assert(rest.contains(paths.last()));
                    }
                } else {
                    assert(whole[a] == rest[a]);
                    assert(whole[b] == rest[b]);
                }
            }
            assert(spec_rfc_documents(paths) == whole);
        }
    }
}

/// Keeps exactly the paths that name proposal documents, preserving their
/// order.
pub fn filter_rfc_documents(paths: &Vec<String>) -> (r: Vec<String>)
    ensures
        names_view(r@) == spec_rfc_documents(names_view(paths@)),
        forall|i: int| 0 <= i < r@.len() ==> spec_is_rfc_document(#[trigger] r@[i]@),
{
    let mut out: Vec<String> = Vec::new();
    let mut j: usize = 0;
    while j < paths.len()
        invariant
            0 <= j <= paths@.len(),
            names_view(out@) == spec_rfc_documents(names_view(paths@).take(j as int)),
            forall|i: int| 0 <= i < out@.len() ==> spec_is_rfc_document(#[trigger] out@[i]@),
        decreases paths@.len() - j,
    {
        let ghost out_before = out@;
        if is_rfc_document(paths[j].as_str()) {
            out.push(paths[j].clone());
        }
        proof {
            assert(names_view(paths@).take(j as int + 1).drop_last() =~= names_view(paths@).take(
                j as int,
            ));
            assert(names_view(paths@).take(j as int + 1).last() == paths@[j as int]@);
            if spec_is_rfc_document(paths@[j as int]@) {
                assert(names_view(out@) =~= names_view(out_before) + seq![paths@[j as int]@]);
            }
            assert(names_view(out@) =~= spec_rfc_documents(names_view(paths@).take(j as int + 1)));
        }
        j += 1;
    }
    proof {
        assert(names_view(paths@).take(paths@.len() as int) =~= names_view(paths@));
    }
    out
}

/// The message of the first fatal walk entry at or after `i`: an error
/// entry at depth 0 is the unreadable root itself and aborts the scan,
/// while deeper error entries are recoverable.
pub open spec fn first_fatal_from(
    entries: Seq<Result<String, (usize, String)>>,
    i: int,
) -> Option<Seq<char>>
    decreases entries.len() - i,
{
    if !(0 <= i < entries.len()) {
        None
    } else {
        match entries[i] {
            Ok(_) => first_fatal_from(entries, i + 1),
            Err(dm) => if dm.0 == 0 {
                Some(dm.1@)
            } else {
                first_fatal_from(entries, i + 1)
            },
        }
    }
}

/// The paths of the directory entries at or after `i`, in walk order.
pub open spec fn ok_paths_from(
    entries: Seq<Result<String, (usize, String)>>,
    i: int,
) -> Seq<Seq<char>>
    decreases entries.len() - i,
{
    if !(0 <= i < entries.len()) {
        Seq::empty()
    } else {
        match entries[i] {
            Ok(p) => seq![p@] + ok_paths_from(entries, i + 1),
            Err(_) => ok_paths_from(entries, i + 1),
        }
    }
}

/// A collected path is exactly the path of some directory entry.
pub proof fn lemma_ok_paths_membership(
    entries: Seq<Result<String, (usize, String)>>,
    i: int,
    s: Seq<char>,
)
    requires
        0 <= i,
    ensures
        ok_paths_from(entries, i).contains(s) <==> exists|k: int|
            i <= k < entries.len() && ((#[trigger] entries[k]) matches Ok(p) && p@ == s),
    decreases entries.len() - i,
{
    if i < entries.len() {
        lemma_ok_paths_membership(entries, i + 1, s);
        let rest = ok_paths_from(entries, i + 1);
        match entries[i] {
            Ok(p) => {
                let whole = seq![p@] + rest;
                assert(whole[0] == p@);
                if whole.contains(s) {
                    let a = choose|a: int| 0 <= a < whole.len() && whole[a] == s;
                    if a == 0 {
                        assert(entries[i] matches Ok(q) && q@ == s);
                    } else {
                        assert(rest[a - 1] == s);
                        assert(rest.contains(s));
                    }
                }
                if exists|k: int|
                    i <= k < entries.len() && ((#[trigger] entries[k]) matches Ok(q) && q@ == s) {
                    let k = choose|k: int|
                        i <= k < entries.len() && ((#[trigger] entries[k]) matches Ok(q) && q@
                            == s);
                    if k == i {
                        assert(whole[0] == s);
                        assert(whole.contains(s));
                    } else {
                        assert(k >= i + 1);
                        assert(rest.contains(s));
                        let a = choose|a: int| 0 <= a < rest.len() && rest[a] == s;
                        assert(whole[a + 1] == s);
                        assert(whole.contains(s));
                    }
                }
            },
            Err(_) => {
                if exists|k: int|
                    i <= k < entries.len() && ((#[trigger] entries[k]) matches Ok(q) && q@ == s) {
                    let k = choose|k: int|
                        i <= k < entries.len() && ((#[trigger] entries[k]) matches Ok(q) && q@
                            == s);
                    assert(k >= i + 1);
                }
            },
        }
    }
}

/// Splits the walk entries by the scanner's recovery rule: every directory
/// entry's path is kept, in walk order; an error entry at depth 0 — the
/// root itself — is fatal and carries its message out; a deeper error entry
/// is skipped.
pub fn collect_walk_paths(entries: &Vec<Result<String, (usize, String)>>) -> (r: Result<
    Vec<String>,
    RfcError,
>)
    ensures
        first_fatal_from(entries@, 0) matches Some(m) ==> (r matches Err(e) && (
        e matches RfcError::Scan(msg) && msg@ == m)),
        first_fatal_from(entries@, 0) is None ==> (r matches Ok(v) && names_view(v@)
            == ok_paths_from(entries@, 0)),
{
    let mut out: Vec<String> = Vec::new();
    let mut j: usize = 0;
    proof {
        assert(names_view(out@) + ok_paths_from(entries@, 0) =~= ok_paths_from(entries@, 0));
    }
    while j < entries.len()
        invariant
            0 <= j <= entries@.len(),
            first_fatal_from(entries@, 0) == first_fatal_from(entries@, j as int),
            ok_paths_from(entries@, 0) == names_view(out@) + ok_paths_from(entries@, j as int),
        decreases entries@.len() - j,
    {
        let ghost out_before = out@;
        match &entries[j] {
            Ok(p) => {
                out.push(p.clone());
                proof {
                    assert(names_view(out@) =~= names_view(out_before) + seq![p@]);
                    assert(names_view(out_before) + (seq![p@] + ok_paths_from(
                        entries@,
                        j as int + 1,
                    )) =~= names_view(out@) + ok_paths_from(entries@, j as int + 1));
                }
            },
            Err(e) => {
                if e.0 == 0 {
                    return Err(RfcError::Scan(e.1.clone()));
                }
                // an individual entry inside the tree failed; skip it
            },
        }
        j += 1;
    }
    proof {
        assert(names_view(out@) + ok_paths_from(entries@, entries@.len() as int) =~= names_view(
            out@,
        ));
    }
    Ok(out)
}

/// The paths with every repetition dropped: the first occurrence of each
/// path survives, in order.
pub open spec fn spec_dedup(paths: Seq<Seq<char>>) -> Seq<Seq<char>>
    decreases paths.len(),
{
    if paths.len() == 0 {
        Seq::empty()
    } else {
        let rest = spec_dedup(paths.drop_last());
        if paths.drop_last().contains(paths.last()) {
            rest
        } else {
            rest + seq![paths.last()]
        }
    }
}

/// Deduplication keeps exactly the paths that were there.
pub proof fn lemma_dedup_membership(paths: Seq<Seq<char>>, p: Seq<char>)
    ensures
        spec_dedup(paths).contains(p) <==> paths.contains(p),
    decreases paths.len(),
{
    if paths.len() > 0 {
        let prefix = paths.drop_last();
        lemma_dedup_membership(prefix, p);
        let rest = spec_dedup(prefix);
        assert(paths.contains(p) <==> (prefix.contains(p) || paths.last() == p)) by {
            if paths.contains(p) {
                let a = choose|a: int| 0 <= a < paths.len() && paths[a] == p;
                if a < paths.len() - 1 {
                    assert(prefix[a] == p);
                }
            }
            if prefix.contains(p) {
                let a = choose|a: int| 0 <= a < prefix.len() && prefix[a] == p;
                assert(paths[a] == p);
            }
            if paths.last() == p {
                assert(paths[paths.len() - 1] == p);
            }
        }
        if !prefix.contains(paths.last()) {
            let whole = rest + seq![paths.last()];
            assert(whole.contains(p) <==> (rest.contains(p) || paths.last() == p)) by {
                if whole.contains(p) {
                    let a = choose|a: int| 0 <= a < whole.len() && whole[a] == p;
                    if a < rest.len() {
                        assert(rest[a] == p);
                    }
                }
                if rest.contains(p) {
                    let a = choose|a: int| 0 <= a < rest.len() && rest[a] == p;
                    assert(whole[a] == p);
                }
                assert(whole[rest.len() as int] == paths.last());
            }
        }
    }
}

/// Deduplicated paths are pairwise distinct: the result denotes a set.
pub proof fn lemma_dedup_distinct(paths: Seq<Seq<char>>)
    ensures
        forall|a: int, b: int|
            0 <= a < b < spec_dedup(paths).len() ==> spec_dedup(paths)[a] != spec_dedup(paths)[b],
    decreases paths.len(),
{
    if paths.len() > 0 {
        let prefix = paths.drop_last();
        lemma_dedup_distinct(prefix);
        let rest = spec_dedup(prefix);
        if !prefix.contains(paths.last()) {
            let whole = rest + seq![paths.last()];
            assert(!rest.contains(paths.last())) by {
                if rest.contains(paths.last()) {
                    lemma_dedup_membership(prefix, paths.last());
                }
            }
            assert forall|a: int, b: int| 0 <= a < b < whole.len() implies whole[a] != whole[b] by {
                if b == rest.len() {
                    assert(whole[b] == paths.last());
                    assert(whole[a] == rest[a]);
                    if whole[a] == paths.last() {
                        assert(rest.contains(paths.last()));
                    }
                } else {
                    assert(whole[a] == rest[a]);
                    assert(whole[b] == rest[b]);
                }
            }
            assert(spec_dedup(paths) == whole);
        }
    }
}

/// Whether some path in the list reads the same as `s`.
fn contains_path(paths: &Vec<String>, s: &str) -> (r: bool)
    ensures
        r == names_view(paths@).contains(s@),
{
    let mut j: usize = 0;
    while j < paths.len()
        invariant
            0 <= j <= paths@.len(),
            forall|k: int| 0 <= k < j ==> #[trigger] names_view(paths@)[k] != s@,
        decreases paths@.len() - j,
    {
        if str_eq(paths[j].as_str(), s) {
            proof {
                assert(names_view(paths@)[j as int] == s@);
            }
            return true;
        }
        j += 1;
    }
    proof {
        if names_view(paths@).contains(s@) {
            let k = choose|k: int|
                0 <= k < names_view(paths@).len() && names_view(paths@)[k] == s@;
            assert(false);
        }
    }
    false
}

/// Drops every repeated path, keeping the first occurrence of each in
/// order, so that the result denotes a set of paths.
pub fn dedup_paths(paths: &Vec<String>) -> (r: Vec<String>)
    ensures
        names_view(r@) == spec_dedup(names_view(paths@)),
{
    let mut out: Vec<String> = Vec::new();
    let mut j: usize = 0;
    proof {
        assert(names_view(out@) =~= spec_dedup(names_view(paths@).take(0)));
    }
    while j < paths.len()
        invariant
            0 <= j <= paths@.len(),
            names_view(out@) == spec_dedup(names_view(paths@).take(j as int)),
        decreases paths@.len() - j,
    {
        let ghost prefix = names_view(paths@).take(j as int);
        let ghost out_before = out@;
        let present = contains_path(&out, paths[j].as_str());
        proof {
            lemma_dedup_membership(prefix, paths@[j as int]@);
            assert(names_view(paths@).take(j as int + 1).drop_last() =~= prefix);
            assert(names_view(paths@).take(j as int + 1).last() == paths@[j as int]@);
        }
        if !present {
            out.push(paths[j].clone());
            proof {
                assert(names_view(out@) =~= names_view(out_before) + seq![paths@[j as int]@]);
            }
        }
        proof {
            assert(names_view(out@) =~= spec_dedup(names_view(paths@).take(j as int + 1)));
        }
        j += 1;
    }
    proof {
        assert(names_view(paths@).take(paths@.len() as int) =~= names_view(paths@));
    }
    out
}

/// Relies on walkdir::WalkDir: walks the tree under `root` depth-first.
/// Each yielded directory entry becomes its path in string form, and each
/// traversal error is logged and becomes its depth together with its
/// message (depth 0 is the root itself).  Every yielded path is the walked
/// root extended by the entry's place in the tree — so the root's string
/// form, valid UTF-8 already, is its prefix.  Nothing is promised of the
/// path strings beyond that: two distinct entries whose names are not valid
/// UTF-8 can read the same once lossily converted.
#[verifier::external_body]
fn walk_entries(root: &str) -> (r: Vec<Result<String, (usize, String)>>)
    ensures
        forall|i: int|
            0 <= i < r@.len() ==> ((#[trigger] r@[i]) matches Ok(p) ==> p@.len() >= root@.len()
                && p@.subrange(0, root@.len() as int) == root@),
{
    walkdir::WalkDir::new(root)
        .into_iter()
        .map(
            |item| match item {
                Ok(entry) => Ok(entry.path().to_string_lossy().to_string()),
                Err(err) => {
                    let _ = writeln!(std::io::stderr(), "Error while reading an entry: {}", err);
                    Err((err.depth(), err.to_string()))
                },
            },
        )
        .collect()
}

/// Walks the tree under `local_repo` and returns the paths of the proposal
/// documents found there, in no promised order.  An unreadable entry inside
/// the tree is logged and skipped; an unreadable root is fatal and surfaces
/// as the scan error.  Every returned path lies under the walked root, and
/// no path is returned twice: the result denotes a set, so paths whose
/// string forms read the same are collapsed.
pub fn files_in_rfc_repo(local_repo: &str) -> (r: Result<Vec<String>, RfcError>)
    ensures
        r matches Err(e) ==> e is Scan,
        r matches Ok(files) ==> {
            &&& forall|i: int|
                0 <= i < files@.len() ==> spec_is_rfc_document(#[trigger] files@[i]@)
            &&& forall|i: int|
                0 <= i < files@.len() ==> ((#[trigger] files@[i])@.len() >= local_repo@.len()
                    && files@[i]@.subrange(0, local_repo@.len() as int) == local_repo@)
            &&& forall|i: int, k: int| 0 <= i < k < files@.len() ==> files@[i]@ != files@[k]@
        },
{
    let entries = walk_entries(local_repo);
    let paths = match collect_walk_paths(&entries) {
        Ok(v) => v,
        Err(e) => {
            return Err(e);
        },
    };
    let unique = dedup_paths(&paths);
    let files = filter_rfc_documents(&unique);
    proof {
        let pv = names_view(paths@);
        let uv = names_view(unique@);
        let fv = names_view(files@);
        lemma_dedup_distinct(pv);
        lemma_rfc_documents_distinct(uv);
        assert forall|i: int|
            0 <= i < files@.len() implies ((#[trigger] files@[i])@.len() >= local_repo@.len()
            && files@[i]@.subrange(0, local_repo@.len() as int) == local_repo@) by {
            assert(fv[i] == files@[i]@);
            assert(fv.contains(files@[i]@));
            lemma_rfc_documents_membership(uv, files@[i]@);
            lemma_dedup_membership(pv, files@[i]@);
            lemma_ok_paths_membership(entries@, 0, files@[i]@);
            let k = choose|k: int|
                0 <= k < entries@.len() && ((#[trigger] entries@[k]) matches Ok(p) && p@
                    == files@[i]@);
            assert(entries@[k] matches Ok(p) && p@ == files@[i]@);
        }
        assert forall|i: int, k: int|
            0 <= i < k < files@.len() implies files@[i]@ != files@[k]@ by {
            assert(fv[i] == files@[i]@);
            assert(fv[k] == files@[k]@);
        }
    }
    Ok(files)
}

} // verus!
