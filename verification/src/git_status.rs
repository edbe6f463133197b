use crate::diff_report::{file_views, ChangeKind, FileChange, FileChangeView};
use crate::order::seq_lt;
use crate::text::{chars_of, concat, string_from};
use vstd::prelude::*;
use vstd::utf8::{decode_utf8, valid_utf8};

verus! {

/// The text `String::from_utf8_lossy` makes of some bytes.
pub uninterp spec fn utf8_lossy(bytes: Seq<u8>) -> Seq<char>;

/// The text of some bytes as `String::from_utf8_lossy` gives it: valid UTF-8 is
/// decoded as it stands; other bytes are left to the name `utf8_lossy`.
pub open spec fn lossy_text(bytes: Seq<u8>) -> Seq<char> {
    if valid_utf8(bytes) {
        decode_utf8(bytes)
    } else {
        utf8_lossy(bytes)
    }
}

/// `String::from_utf8_lossy`: the text of the bytes, with each invalid sequence
/// replaced; valid UTF-8 is decoded as it stands.
#[verifier::external_body]
fn path_string(bytes: &[u8]) -> (r: String)
    ensures
        r@ == utf8_lossy(bytes@),
        valid_utf8(bytes@) ==> r@ == decode_utf8(bytes@),
{
    String::from_utf8_lossy(bytes).into_owned()
}

/// Reading `b` from the left: the non-empty fields ended by a NUL byte so far, and
/// the bytes after the last NUL.
pub open spec fn scan_nul(b: Seq<u8>) -> (Seq<Seq<u8>>, Seq<u8>)
    decreases b.len(),
{
    if b.len() == 0 {
        (Seq::empty(), Seq::empty())
    } else {
        let prev = scan_nul(b.drop_last());
        if b.last() == 0 {
            (if prev.1.len() > 0 {
                prev.0.push(prev.1)
            } else {
                prev.0
            }, Seq::empty())
        } else {
            (prev.0, prev.1.push(b.last()))
        }
    }
}

/// The non-empty NUL-separated fields of `b`.
pub open spec fn nul_fields(b: Seq<u8>) -> Seq<Seq<u8>> {
    let s = scan_nul(b);
    if s.1.len() > 0 {
        s.0.push(s.1)
    } else {
        s.0
    }
}

/// The change a `git diff --name-status` status field names, by its first letter.
pub open spec fn spec_change_from_status(status: Seq<u8>) -> Option<ChangeKind> {
    if status.len() == 0 {
        None
    } else if status[0] == 65u8 {
        Some(ChangeKind::Added)
    } else if status[0] == 68u8 {
        Some(ChangeKind::Removed)
    } else if status[0] == 77u8 {
        Some(ChangeKind::Modified)
    } else if status[0] == 82u8 {
        Some(ChangeKind::Renamed)
    } else if status[0] == 67u8 {
        Some(ChangeKind::Copied)
    } else if status[0] == 84u8 {
        Some(ChangeKind::TypeChanged)
    } else {
        None
    }
}

pub open spec fn missing_message(label: Seq<char>, status: Seq<u8>) -> Seq<char> {
    "missing "@ + label + " after git diff status "@ + lossy_text(status)
}

/// The changes that NUL-separated `--name-status` fields list: each status is
/// followed by its path, or by the old and the new path for a rename or copy.
pub open spec fn parse_fields(fields: Seq<Seq<u8>>) -> Result<Seq<FileChangeView>, Seq<char>>
    decreases fields.len(),
{
    if fields.len() == 0 {
        Ok(Seq::empty())
    } else {
        let status = fields[0];
        match spec_change_from_status(status) {
            None => Err("unsupported git diff status: "@ + lossy_text(status)),
            Some(change) => if change == ChangeKind::Renamed || change == ChangeKind::Copied {
                if fields.len() < 2 {
                    Err(missing_message("old path"@, status))
                } else if fields.len() < 3 {
                    Err(missing_message("new path"@, status))
                } else {
                    match parse_fields(fields.skip(3)) {
                        Ok(rest) => Ok(seq![FileChangeView {
                            change,
                            path: lossy_text(fields[2]),
                            old_path: Some(lossy_text(fields[1])),
                        }] + rest),
                        Err(e) => Err(e),
                    }
                }
            } else if fields.len() < 2 {
                Err(missing_message("path"@, status))
            } else {
                match parse_fields(fields.skip(2)) {
                    Ok(rest) => Ok(seq![FileChangeView {
                        change,
                        path: lossy_text(fields[1]),
                        old_path: None,
                    }] + rest),
                    Err(e) => Err(e),
                }
            }
        }
    }
}

/// What `git diff --name-status -z` output lists.
pub open spec fn spec_parse_name_status_z(output: Seq<u8>) -> Result<Seq<FileChangeView>, Seq<char>> {
    parse_fields(nul_fields(output))
}

pub open spec fn byte_views(v: Seq<Vec<u8>>) -> Seq<Seq<u8>> {
    v.map_values(|x: Vec<u8>| x@)
}

fn split_nul(output: &[u8]) -> (r: Vec<Vec<u8>>)
    ensures
        byte_views(r@) == nul_fields(output@),
{
    let mut done: Vec<Vec<u8>> = Vec::new();
    let mut cur: Vec<u8> = Vec::new();
    let mut i: usize = 0;
    while i < output.len()
        invariant
            i <= output.len(),
            byte_views(done@) == scan_nul(output@.take(i as int)).0,
            cur@ == scan_nul(output@.take(i as int)).1,
        decreases output.len() - i,
    {
        assert(output@.take(i + 1).drop_last() =~= output@.take(i as int));
        if output[i] == 0 {
            if cur.len() > 0 {
                let ghost before = done@;
                done.push(cur);
                assert(byte_views(done@) =~= byte_views(before).push(scan_nul(output@.take(i as int)).1));
            }
            cur = Vec::new();
            assert(cur@ =~= Seq::<u8>::empty());
        } else {
            cur.push(output[i]);
        }
        i += 1;
    }
    assert(output@.take(output.len() as int) =~= output@);
    if cur.len() > 0 {
        let ghost before = done@;
        done.push(cur);
        assert(byte_views(done@) =~= byte_views(before).push(scan_nul(output@).1));
    }
    done
}

/// The change a status field names.
pub fn change_from_status(status: &[u8]) -> (r: Result<ChangeKind, String>)
    ensures
        match r {
            Ok(c) => spec_change_from_status(status@) == Some(c),
            Err(e) => spec_change_from_status(status@) is None && e@ == "unsupported git diff status: "@ + lossy_text(status@),
        },
{
    if status.len() > 0 {
        let b = status[0];
        if b == 65u8 {
            return Ok(ChangeKind::Added);
        } else if b == 68u8 {
            return Ok(ChangeKind::Removed);
        } else if b == 77u8 {
            return Ok(ChangeKind::Modified);
        } else if b == 82u8 {
            return Ok(ChangeKind::Renamed);
        } else if b == 67u8 {
            return Ok(ChangeKind::Copied);
        } else if b == 84u8 {
            return Ok(ChangeKind::TypeChanged);
        }
    }
    let text = path_string(status);
    Err(string_from(&concat(&chars_of("unsupported git diff status: "), &chars_of(text.as_str()))))
}

fn missing(label: &str, status: &[u8]) -> (r: String)
    ensures
        r@ == missing_message(label@, status@),
{
    let a = concat(&chars_of("missing "), &chars_of(label));
    let b = concat(&a, &chars_of(" after git diff status "));
    let text = path_string(status);
    string_from(&concat(&b, &chars_of(text.as_str())))
}

/// Parses the NUL-separated output of `git diff --name-status -z`; fails on an
/// unknown status or a missing path.
pub fn parse_name_status_z(output: &[u8]) -> (r: Result<Vec<FileChange>, String>)
    ensures
        match r {
            Ok(v) => spec_parse_name_status_z(output@) == Ok::<Seq<FileChangeView>, Seq<char>>(file_views(v@)),
            Err(e) => spec_parse_name_status_z(output@) == Err::<Seq<FileChangeView>, Seq<char>>(e@),
        },
{
    let fields = split_nul(output);
    let ghost fv = byte_views(fields@);
    let mut changes: Vec<FileChange> = Vec::new();
    let mut i: usize = 0;
    assert(fv.skip(0) =~= fv);
    while i < fields.len()
        invariant
            i <= fields.len(),
            fv == byte_views(fields@),
            fv == nul_fields(output@),
            match parse_fields(fv.skip(i as int)) {
                Ok(rest) => parse_fields(fv) == Ok::<Seq<FileChangeView>, Seq<char>>(file_views(changes@) + rest),
                Err(e) => parse_fields(fv) == Err::<Seq<FileChangeView>, Seq<char>>(e),
            },
        decreases fields.len() - i,
    {
        let ghost rest_fields = fv.skip(i as int);
        assert(rest_fields[0] == fields@[i as int]@);
        let status = &fields[i];
        let change = match change_from_status(status) {
            Ok(c) => c,
            Err(e) => {
                return Err(e);
            },
        };
        if change == ChangeKind::Renamed || change == ChangeKind::Copied {
            if i + 1 >= fields.len() {
                return Err(missing("old path", status));
            }
            if i + 2 >= fields.len() {
                return Err(missing("new path", status));
            }
            assert(rest_fields[1] == fields@[i + 1]@);
            assert(rest_fields[2] == fields@[i + 2]@);
            assert(rest_fields.skip(3) =~= fv.skip(i + 3));
            let old_path = path_string(&fields[i + 1]);
            let path = path_string(&fields[i + 2]);
            let c = FileChange { change, path, old_path: Some(old_path) };
            let ghost before = changes@;
            changes.push(c);
            proof {
                assert(file_views(changes@) =~= file_views(before).push(c@));
                match parse_fields(fv.skip(i + 3)) {
                    Ok(rest) => {
                        assert(file_views(before) + (seq![c@] + rest) =~= file_views(changes@) + rest);
                    },
                    Err(e) => {},
                }
            }
            i += 3;
        } else {
            if i + 1 >= fields.len() {
                return Err(missing("path", status));
            }
            assert(rest_fields[1] == fields@[i + 1]@);
            assert(rest_fields.skip(2) =~= fv.skip(i + 2));
            let path = path_string(&fields[i + 1]);
            let c = FileChange { change, path, old_path: None };
            let ghost before = changes@;
            changes.push(c);
            proof {
                assert(file_views(changes@) =~= file_views(before).push(c@));
                match parse_fields(fv.skip(i + 2)) {
                    Ok(rest) => {
                        assert(file_views(before) + (seq![c@] + rest) =~= file_views(changes@) + rest);
                    },
                    Err(e) => {},
                }
            }
            i += 2;
        }
    }
    assert(fv.skip(i as int) =~= Seq::<Seq<u8>>::empty());
    assert(file_views(changes@) + Seq::<FileChangeView>::empty() =~= file_views(changes@));
    Ok(changes)
}

/// Whether change `a` sorts before change `b`: by path, then by old path, a
/// missing old path first.
pub open spec fn change_lt(a: FileChangeView, b: FileChangeView) -> bool {
    seq_lt(a.path, b.path) || (a.path == b.path && match (a.old_path, b.old_path) {
        (None, Some(_)) => true,
        (Some(x), Some(y)) => seq_lt(x, y),
        _ => false,
    })
}

/// The number of leading changes of `s` that `x` does not sort before.
pub open spec fn insert_point(s: Seq<FileChangeView>, x: FileChangeView) -> nat
    decreases s.len(),
{
    if s.len() == 0 {
        0
    } else if !change_lt(x, s[0]) {
        1 + insert_point(s.drop_first(), x)
    } else {
        0
    }
}

/// The changes sorted stably by path and old path.
pub open spec fn sort_changes_spec(s: Seq<FileChangeView>) -> Seq<FileChangeView>
    decreases s.len(),
{
    if s.len() == 0 {
        Seq::empty()
    } else {
        let sorted = sort_changes_spec(s.drop_last());
        sorted.insert(insert_point(sorted, s.last()) as int, s.last())
    }
}

/// The order `change_lt` as a relation.
pub open spec fn change_order() -> spec_fn(FileChangeView, FileChangeView) -> bool {
    |a: FileChangeView, b: FileChangeView| change_lt(a, b)
}

proof fn lemma_change_order_is_strict()
    ensures
        crate::order::strict_order_by(change_order()),
{
    assert forall|a: FileChangeView, b: FileChangeView, c: FileChangeView| #[trigger] change_order()(a, b) && #[trigger] change_order()(b, c) implies change_order()(a, c) by {
        if seq_lt(a.path, b.path) && seq_lt(b.path, c.path) {
            crate::order::seq_lt_transitive(a.path, b.path, c.path);
        }
        if a.path == b.path && b.path == c.path {
            match (a.old_path, b.old_path, c.old_path) {
                (Some(x), Some(y), Some(z)) => {
                    if seq_lt(x, y) && seq_lt(y, z) {
                        crate::order::seq_lt_transitive(x, y, z);
                    }
                },
                _ => {},
            }
        }
    }
    assert forall|a: FileChangeView| !#[trigger] change_order()(a, a) by {
        crate::order::seq_lt_irreflexive(a.path);
        match a.old_path {
            Some(x) => crate::order::seq_lt_irreflexive(x),
            None => {},
        }
    }
}

proof fn lemma_insert_point_by(s: Seq<FileChangeView>, x: FileChangeView)
    ensures
        insert_point(s, x) == crate::order::insert_point_by(s, x, change_order()),
    decreases s.len(),
{
    if s.len() > 0 {
        lemma_insert_point_by(s.drop_first(), x);
    }
}

proof fn lemma_sort_changes_spec_by(s: Seq<FileChangeView>)
    ensures
        sort_changes_spec(s) == crate::order::insertion_sort_by(s, change_order()),
    decreases s.len(),
{
    if s.len() > 0 {
        lemma_sort_changes_spec_by(s.drop_last());
        lemma_insert_point_by(sort_changes_spec(s.drop_last()), s.last());
    }
}

/// Sorting the changes puts no change after one that sorts before it, and keeps
/// every change, each as often as it came.
pub proof fn sorted_changes_are_ordered(s: Seq<FileChangeView>)
    ensures
        forall|i: int, j: int| 0 <= i < j < sort_changes_spec(s).len() ==> !change_lt(#[trigger] sort_changes_spec(s)[j], #[trigger] sort_changes_spec(s)[i]),
        sort_changes_spec(s).to_multiset() == s.to_multiset(),
{
    lemma_change_order_is_strict();
    lemma_sort_changes_spec_by(s);
    crate::order::lemma_insertion_sort_by(s, change_order());
    let r = sort_changes_spec(s);
    assert forall|i: int, j: int| 0 <= i < j < r.len() implies !change_lt(#[trigger] r[j], #[trigger] r[i]) by {
        assert(!change_order()(r[j], r[i]));
    }
}

fn opt_chars(o: &Option<String>) -> (r: Option<Vec<char>>)
    ensures
        match r {
            Some(v) => o matches Some(s) && v@ == s@,
            None => o is None,
        },
{
    match o {
        Some(s) => Some(chars_of(s.as_str())),
        None => None,
    }
}

fn change_lt_exec(a: &FileChange, b: &FileChange) -> (r: bool)
    ensures
        r == change_lt(a@, b@),
{
    let ap = chars_of(a.path.as_str());
    let bp = chars_of(b.path.as_str());
    if crate::order::chars_lt(&ap, &bp) {
        return true;
    }
    if !crate::model::same_text(&ap, &bp) {
        return false;
    }
    match (opt_chars(&a.old_path), opt_chars(&b.old_path)) {
        (None, Some(_)) => true,
        (Some(x), Some(y)) => crate::order::chars_lt(&x, &y),
        _ => false,
    }
}

fn insert_point_exec(sorted: &Vec<FileChange>, x: &FileChange) -> (r: usize)
    ensures
        r == insert_point(file_views(sorted@), x@),
        r <= sorted@.len(),
{
    let ghost s = file_views(sorted@);
    let mut j: usize = 0;
    assert(s.skip(0) =~= s);
    while j < sorted.len() && !change_lt_exec(x, &sorted[j])
        invariant
            j <= sorted.len(),
            s == file_views(sorted@),
            insert_point(s, x@) == j + insert_point(s.skip(j as int), x@),
        decreases sorted.len() - j,
    {
        assert(s.skip(j as int)[0] == sorted@[j as int]@);
        assert(s.skip(j as int).drop_first() =~= s.skip(j + 1));
        j += 1;
    }
    if j < sorted.len() {
        assert(s.skip(j as int)[0] == sorted@[j as int]@);
    }
    j
}

/// Sorts changes by path and old path, keeping the order of equal ones.
pub fn sort_changes(changes: Vec<FileChange>) -> (r: Vec<FileChange>)
    ensures
        file_views(r@) == sort_changes_spec(file_views(changes@)),
{
    let ghost cv = file_views(changes@);
    let mut rest = changes;
    let mut sorted: Vec<FileChange> = Vec::new();
    let ghost mut k: int = 0;
    assert(cv.take(0) =~= Seq::<FileChangeView>::empty());
    assert(cv.skip(0) =~= cv);
    while rest.len() > 0
        invariant
            0 <= k <= cv.len(),
            file_views(rest@) == cv.skip(k),
            file_views(sorted@) == sort_changes_spec(cv.take(k)),
        decreases rest.len(),
    {
        let ghost before_rest = rest@;
        assert(file_views(before_rest).len() == before_rest.len());
        assert(k < cv.len());
        assert(file_views(before_rest)[0] == before_rest[0]@);
        let x = rest.remove(0);
        assert(x@ == cv[k]);
        assert(file_views(rest@) =~= cv.skip(k + 1)) by {
            assert(rest@ =~= before_rest.skip(1));
            assert forall|j: int| 0 <= j < rest@.len() implies file_views(rest@)[j] == cv.skip(k + 1)[j] by {
                assert(file_views(before_rest)[j + 1] == before_rest[j + 1]@);
            }
        }
        let p = insert_point_exec(&sorted, &x);
        let ghost before = sorted@;
        sorted.insert(p, x);
        proof {
            assert(cv.take(k + 1).drop_last() =~= cv.take(k));
            assert(cv.take(k + 1).last() == cv[k]);
            assert(file_views(sorted@) =~= file_views(before).insert(p as int, x@));
            k = k + 1;
        }
    }
    assert(cv.take(k) =~= cv);
    sorted
}

/// What a failed git command reports: its trimmed error output, else its trimmed
/// standard output, else that the command failed.
pub open spec fn spec_git_error_message(stderr: Seq<char>, stdout: Seq<char>) -> Seq<char> {
    let detail = if crate::text::trim(stderr).len() == 0 {
        crate::text::trim(stdout)
    } else {
        crate::text::trim(stderr)
    };
    if detail.len() == 0 {
        "git command failed"@
    } else {
        detail
    }
}

/// What a failed git command reports, from its error and standard output.
pub fn git_error_message(stderr: &str, stdout: &str) -> (r: String)
    ensures
        r@ == spec_git_error_message(stderr@, stdout@),
{
    let e = crate::text::trimmed(&crate::text::chars_of(stderr));
    let detail = if e.len() == 0 {
        crate::text::trimmed(&crate::text::chars_of(stdout))
    } else {
        e
    };
    if detail.len() == 0 {
        String::from_str("git command failed")
    } else {
        crate::text::string_from(&detail)
    }
}

} // verus!
