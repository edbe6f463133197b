use vstd::prelude::*;

verus! {

/// A path component that `Path::components` reports as a normal name: neither
/// empty nor the current directory.
pub open spec fn is_normal(seg: Seq<char>) -> bool {
    seg.len() > 0 && seg != seq!['.']
}

pub open spec fn push_normal(done: Seq<Seq<char>>, seg: Seq<char>) -> Seq<Seq<char>> {
    if is_normal(seg) {
        done.push(seg)
    } else {
        done
    }
}

/// Reading `p` from the left: the normal components finished so far and the
/// segment after the last `/`.
pub open spec fn scan_path(p: Seq<char>) -> (Seq<Seq<char>>, Seq<char>)
    decreases p.len(),
{
    if p.len() == 0 {
        (Seq::empty(), Seq::empty())
    } else {
        let prev = scan_path(p.drop_last());
        if p.last() == '/' {
            (push_normal(prev.0, prev.1), Seq::empty())
        } else {
            (prev.0, prev.1.push(p.last()))
        }
    }
}

/// The normal components of `p`: the maximal runs of characters other than `/`,
/// leaving out empty runs and `.`.
pub open spec fn normal_components(p: Seq<char>) -> Seq<Seq<char>> {
    push_normal(scan_path(p).0, scan_path(p).1)
}

pub open spec fn is_absolute(p: Seq<char>) -> bool {
    p.len() > 0 && p[0] == '/'
}

/// Whether `p` starts with the current-directory component `.`.
pub open spec fn has_cur_dir(p: Seq<char>) -> bool {
    !is_absolute(p) && p.len() > 0 && p[0] == '.' && (p.len() == 1 || p[1] == '/')
}

/// The components of `p` as `Path::components` yields them on Unix, each as its
/// text: the root `/` or a leading `.`, then the normal components.
pub open spec fn components(p: Seq<char>) -> Seq<Seq<char>> {
    if is_absolute(p) {
        seq![seq!['/']] + normal_components(p)
    } else if has_cur_dir(p) {
        seq![seq!['.']] + normal_components(p)
    } else {
        normal_components(p)
    }
}

/// The parts joined with `/` between them.
pub open spec fn join_slash(parts: Seq<Seq<char>>) -> Seq<char>
    decreases parts.len(),
{
    if parts.len() == 0 {
        Seq::empty()
    } else if parts.len() == 1 {
        parts[0]
    } else {
        join_slash(parts.drop_last()) + seq!['/'] + parts.last()
    }
}

/// The component texts other than `.`, joined with `/`.
pub open spec fn spec_normalize(p: Seq<char>) -> Seq<char> {
    join_slash(
        if is_absolute(p) {
            seq![seq!['/']] + normal_components(p)
        } else {
            normal_components(p)
        },
    )
}

/// The last component of `p` when it is a normal name other than `..`.
pub open spec fn spec_file_name(p: Seq<char>) -> Option<Seq<char>> {
    let n = normal_components(p);
    if n.len() > 0 && n.last() != seq!['.', '.'] {
        Some(n.last())
    } else {
        None
    }
}

/// Index of the last `.` in `s`, if any.
pub open spec fn last_dot(s: Seq<char>) -> Option<int>
    decreases s.len(),
{
    if s.len() == 0 {
        None
    } else if s.last() == '.' {
        Some(s.len() - 1)
    } else {
        last_dot(s.drop_last())
    }
}

/// The text after the last `.` of the file name, unless that `.` starts the name.
pub open spec fn spec_extension(p: Seq<char>) -> Option<Seq<char>> {
    match spec_file_name(p) {
        Some(name) => match last_dot(name) {
            Some(k) => if k > 0 {
                Some(name.skip(k + 1))
            } else {
                None
            },
            None => None,
        },
        None => None,
    }
}

/// The file name without its extension.
pub open spec fn spec_file_stem(p: Seq<char>) -> Option<Seq<char>> {
    match spec_file_name(p) {
        Some(name) => match last_dot(name) {
            Some(k) => if k > 0 {
                Some(name.take(k))
            } else {
                Some(name)
            },
            None => Some(name),
        },
        None => None,
    }
}

/// The components of `p` after those of `root`, when `root`'s components begin `p`'s.
pub open spec fn spec_strip_prefix(p: Seq<char>, root: Seq<char>) -> Option<Seq<Seq<char>>> {
    let cp = components(p);
    let cr = components(root);
    if cr.len() <= cp.len() && cp.take(cr.len() as int) == cr {
        Some(cp.skip(cr.len() as int))
    } else {
        None
    }
}

fn is_normal_segment(seg: &Vec<char>) -> (r: bool)
    ensures
        r == is_normal(seg@),
{
    if seg.len() == 0 {
        false
    } else if seg.len() == 1 && seg[0] == '.' {
        assert(seg@ =~= seq!['.']);
        false
    } else {
        assert(seg@.len() == 1 ==> seg@ != seq!['.']);
        true
    }
}

/// The normal components of `p`, in order.
pub fn normal_components_of(p: &[char]) -> (r: Vec<Vec<char>>)
    ensures
        r.deep_view() == normal_components(p@),
{
    let mut done: Vec<Vec<char>> = Vec::new();
    let mut cur: Vec<char> = Vec::new();
    let mut i: usize = 0;
    while i < p.len()
        invariant
            i <= p.len(),
            done.deep_view() == scan_path(p@.take(i as int)).0,
            cur@ == scan_path(p@.take(i as int)).1,
        decreases p.len() - i,
    {
        assert(p@.take(i + 1).drop_last() =~= p@.take(i as int));
        if p[i] == '/' {
            if is_normal_segment(&cur) {
                let ghost before = done.deep_view();
                assert(cur.deep_view() =~= cur@);
                done.push(cur);
                assert(done.deep_view() =~= before.push(scan_path(p@.take(i as int)).1));
            }
            cur = Vec::new();
            assert(cur@ =~= Seq::<char>::empty());
        } else {
            cur.push(p[i]);
        }
        i += 1;
    }
    assert(p@.take(p.len() as int) =~= p@);
    if is_normal_segment(&cur) {
        let ghost before = done.deep_view();
        assert(cur.deep_view() =~= cur@);
        done.push(cur);
        assert(done.deep_view() =~= before.push(scan_path(p@).1));
    }
    done
}

/// The parts joined with `/` between them.
pub fn join_with_slash(parts: &Vec<Vec<char>>) -> (r: Vec<char>)
    ensures
        r@ == join_slash(parts.deep_view()),
{
    let mut r: Vec<char> = Vec::new();
    let mut i: usize = 0;
    while i < parts.len()
        invariant
            i <= parts.len(),
            r@ == join_slash(parts.deep_view().take(i as int)),
        decreases parts.len() - i,
    {
        let ghost prev = parts.deep_view().take(i as int);
        assert(parts.deep_view().take(i + 1).drop_last() =~= prev);
        if i > 0 {
            r.push('/');
        }
        let joined = crate::text::concat(&r, &parts[i]);
        r = joined;
        i += 1;
        assert(parts.deep_view().take(i as int).last() == parts[i - 1]@);
        assert(i == 1 ==> r@ =~= parts.deep_view().take(i as int)[0]);
    }
    assert(parts.deep_view().take(parts.len() as int) =~= parts.deep_view());
    r
}

fn starts_absolute(p: &[char]) -> (r: bool)
    ensures
        r == is_absolute(p@),
{
    p.len() > 0 && p[0] == '/'
}

fn single(c: char) -> (r: Vec<char>)
    ensures
        r@ == seq![c],
        r.deep_view() == seq![c],
{
    let mut r: Vec<char> = Vec::new();
    r.push(c);
    assert(r@ =~= seq![c]);
    assert(r.deep_view() =~= seq![c]);
    r
}

/// `head` followed by copies of the parts.
fn extend_parts(head: Vec<Vec<char>>, parts: &Vec<Vec<char>>) -> (r: Vec<Vec<char>>)
    ensures
        r.deep_view() == head.deep_view() + parts.deep_view(),
{
    let ghost h = head.deep_view();
    let mut r = head;
    let mut i: usize = 0;
    while i < parts.len()
        invariant
            i <= parts.len(),
            r.deep_view() == h + parts.deep_view().take(i as int),
        decreases parts.len() - i,
    {
        let seg = crate::text::slice(&parts[i], 0, parts[i].len());
        assert(seg.deep_view() =~= seg@);
        assert(seg@ =~= parts[i as int]@);
        let ghost before = r.deep_view();
        r.push(seg);
        i += 1;
        assert(r.deep_view() =~= before.push(parts.deep_view()[i - 1]));
        assert(r.deep_view() =~= h + parts.deep_view().take(i as int));
    }
    assert(parts.deep_view().take(parts.len() as int) =~= parts.deep_view());
    r
}

/// The components of `p` as `Path::components` yields them.
pub fn components_of(p: &[char]) -> (r: Vec<Vec<char>>)
    ensures
        r.deep_view() == components(p@),
{
    let normals = normal_components_of(p);
    let mut head: Vec<Vec<char>> = Vec::new();
    if starts_absolute(p) {
        head.push(single('/'));
        assert(head.deep_view() =~= seq![seq!['/']]);
    } else if p.len() > 0 && p[0] == '.' && (p.len() == 1 || p[1] == '/') {
        head.push(single('.'));
        assert(head.deep_view() =~= seq![seq!['.']]);
    } else {
        assert(head.deep_view() =~= Seq::<Seq<char>>::empty());
        assert(Seq::<Seq<char>>::empty() + normals.deep_view() =~= normals.deep_view());
    }
    extend_parts(head, &normals)
}

/// The path with `.` components and repeated separators removed, its components
/// joined with `/`.
pub fn normalize_path(path: &str) -> (r: String)
    ensures
        r@ == spec_normalize(path@),
{
    let p = crate::text::chars_of(path);
    let normals = normal_components_of(&p);
    if starts_absolute(&p) {
        let mut head: Vec<Vec<char>> = Vec::new();
        head.push(single('/'));
        assert(head.deep_view() =~= seq![seq!['/']]);
        let all = extend_parts(head, &normals);
        crate::text::string_from(&join_with_slash(&all))
    } else {
        crate::text::string_from(&join_with_slash(&normals))
    }
}

/// Index of the last `.` in `s`.
pub fn find_last_dot(s: &[char]) -> (r: Option<usize>)
    ensures
        match r {
            Some(k) => last_dot(s@) == Some(k as int),
            None => last_dot(s@) is None,
        },
{
    let mut i: usize = s.len();
    assert(s@.take(s.len() as int) =~= s@);
    while i > 0
        invariant
            i <= s.len(),
            last_dot(s@) == last_dot(s@.take(i as int)),
        decreases i,
    {
        if s[i - 1] == '.' {
            return Some(i - 1);
        }
        assert(s@.take(i as int).drop_last() =~= s@.take(i - 1));
        i -= 1;
    }
    None
}

/// The file name of `p`.
pub fn file_name_of(p: &[char]) -> (r: Option<Vec<char>>)
    ensures
        match r {
            Some(n) => spec_file_name(p@) == Some(n@),
            None => spec_file_name(p@) is None,
        },
{
    let n = normal_components_of(p);
    if n.len() == 0 {
        return None;
    }
    let last = &n[n.len() - 1];
    assert(n.deep_view().last() == last@);
    if last.len() == 2 && last[0] == '.' && last[1] == '.' {
        assert(last@ =~= seq!['.', '.']);
        None
    } else {
        assert(last@ != seq!['.', '.']);
        Some(crate::text::slice(last, 0, last.len()))
    }
}

/// The extension of `p`'s file name.
pub fn extension_of(p: &[char]) -> (r: Option<Vec<char>>)
    ensures
        match r {
            Some(e) => spec_extension(p@) == Some(e@),
            None => spec_extension(p@) is None,
        },
{
    match file_name_of(p) {
        Some(name) => match find_last_dot(&name) {
            Some(k) => {
                proof {
                    lemma_last_dot_bound(name@);
                }
                assert(last_dot(name@) == Some(k as int));
                assert(k < name.len());
                if k > 0 {
                    let e = crate::text::slice(&name, k + 1, name.len());
                    assert(e@ =~= name@.skip(k + 1));
                    Some(e)
                } else {
                    None
                }
            },
            None => None,
        },
        None => None,
    }
}

/// The file stem of `p`.
pub fn file_stem_of(p: &[char]) -> (r: Option<Vec<char>>)
    ensures
        match r {
            Some(e) => spec_file_stem(p@) == Some(e@),
            None => spec_file_stem(p@) is None,
        },
{
    match file_name_of(p) {
        Some(name) => match find_last_dot(&name) {
            Some(k) => {
                proof {
                    lemma_last_dot_bound(name@);
                }
                assert(last_dot(name@) == Some(k as int));
                if k > 0 {
                    let e = crate::text::slice(&name, 0, k);
                    assert(e@ =~= name@.take(k as int));
                    Some(e)
                } else {
                    Some(name)
                }
            },
            None => Some(name),
        },
        None => None,
    }
}

/// Where `last_dot` points.
pub proof fn lemma_last_dot_bound(s: Seq<char>)
    ensures
        last_dot(s) matches Some(k) ==> 0 <= k < s.len() && s[k] == '.',
    decreases s.len(),
{
    if s.len() > 0 && s.last() != '.' {
        lemma_last_dot_bound(s.drop_last());
    }
}

} // verus!
