//! Lexical POSIX path components and the Project boundary checks built on them.
//!
//! A path is a text whose components are the non-empty, non-`.` pieces
//! between `/` separators; it is absolute when it starts with `/`.
use vstd::prelude::*;
use crate::errors::{control_error, is_error, ControlError, ErrorCode, Outcome};
use crate::text::{chars_of, push_char, texts};

verus! {

/// Adds the pending piece `current` to `parts` unless it is empty or `.`.
pub open spec fn flush(parts: Seq<Seq<char>>, current: Seq<char>) -> Seq<Seq<char>> {
    if current.len() == 0 || current == seq!['.'] {
        parts
    } else {
        parts.push(current)
    }
}

/// The components found so far and the piece being read, after scanning `p`.
pub open spec fn scan(p: Seq<char>) -> (Seq<Seq<char>>, Seq<char>)
    decreases p.len(),
{
    if p.len() == 0 {
        (Seq::empty(), Seq::empty())
    } else {
        let (parts, current) = scan(p.drop_last());
        if p.last() == '/' {
            (flush(parts, current), Seq::empty())
        } else {
            (parts, current.push(p.last()))
        }
    }
}

/// The components of a path.
pub open spec fn components(p: Seq<char>) -> Seq<Seq<char>> {
    flush(scan(p).0, scan(p).1)
}

/// Whether a path starts with `/`.
pub open spec fn is_absolute(p: Seq<char>) -> bool {
    p.len() > 0 && p[0] == '/'
}

/// The parent-directory component.
pub open spec fn parent_dir() -> Seq<char> {
    seq!['.', '.']
}

/// Lexical normalization of components: `..` drops the previous component
/// and fails when there is none.
pub open spec fn normalize(parts: Seq<Seq<char>>) -> Option<Seq<Seq<char>>>
    decreases parts.len(),
{
    if parts.len() == 0 {
        Some(Seq::empty())
    } else {
        match normalize(parts.drop_last()) {
            None => None,
            Some(stack) => if parts.last() == parent_dir() {
                if stack.len() == 0 {
                    None
                } else {
                    Some(stack.drop_last())
                }
            } else {
                Some(stack.push(parts.last()))
            },
        }
    }
}

/// `prefix` is a leading run of the components of `whole` (`Path::starts_with`).
pub open spec fn starts_with(whole: Seq<Seq<char>>, prefix: Seq<Seq<char>>) -> bool {
    prefix.len() <= whole.len() && whole.take(prefix.len() as int) == prefix
}

/// The error of a path that leaves the Project boundary.
pub open spec fn boundary_error() -> (ErrorCode, Seq<char>, bool) {
    (ErrorCode::InvalidConfiguration, "filesystem grant escapes the Project boundary"@, false)
}

/// Builds the Project boundary error.
pub fn project_boundary_error() -> (e: ControlError)
    ensures
        is_error(e, boundary_error().0, boundary_error().1, boundary_error().2),
{
    control_error(ErrorCode::InvalidConfiguration, "filesystem grant escapes the Project boundary", false)
}

/// Whether the text `piece` is `..`.
fn is_parent_dir(piece: &String) -> (result: bool)
    ensures
        result == (piece@ == parent_dir()),
{
    let chars = chars_of(piece.as_str());
    let result = chars.len() == 2 && chars[0] == '.' && chars[1] == '.';
    proof {
        if result {
            assert(piece@ =~= parent_dir());
        }
    }
    result
}

/// The components of `path`.
pub fn path_components(path: &str) -> (parts: Vec<String>)
    ensures
        texts(parts@) == components(path@),
{
    let chars = chars_of(path);
    let mut parts: Vec<String> = Vec::new();
    let mut current = String::new();
    let mut i: usize = 0;
    while i < chars.len()
        invariant
            chars@ == path@,
            i <= chars.len(),
            (texts(parts@), current@) == scan(path@.take(i as int)),
        decreases chars.len() - i,
    {
        let c = chars[i];
        proof {
            assert(path@.take(i + 1).drop_last() =~= path@.take(i as int));
            assert(path@.take(i + 1).last() == c);
        }
        if c == '/' {
            let piece = current;
            current = String::new();
            let ghost before = parts@;
            if !piece.as_str().is_empty() && !is_dot(&piece) {
                parts.push(piece);
                proof {
                    assert(texts(parts@) =~= texts(before).push(piece@));
                }
            }
        } else {
            push_char(&mut current, c);
        }
        i = i + 1;
    }
    proof {
        assert(path@.take(chars.len() as int) =~= path@);
    }
    let ghost before = parts@;
    if !current.as_str().is_empty() && !is_dot(&current) {
        parts.push(current);
        proof {
            assert(texts(parts@) =~= texts(before).push(current@));
        }
    }
    parts
}

/// Whether the text `piece` is `.`.
fn is_dot(piece: &String) -> (result: bool)
    ensures
        result == (piece@ == seq!['.']),
{
    let chars = chars_of(piece.as_str());
    let result = chars.len() == 1 && chars[0] == '.';
    proof {
        if result {
            assert(piece@ =~= seq!['.']);
        }
    }
    result
}

/// Whether a path is absolute.
pub fn path_is_absolute(path: &str) -> (result: bool)
    ensures
        result == is_absolute(path@),
{
    let chars = chars_of(path);
    chars.len() > 0 && chars[0] == '/'
}


proof fn lemma_normalize_none_extends(parts: Seq<Seq<char>>, i: int)
    requires
        0 <= i <= parts.len(),
        normalize(parts.take(i)).is_none(),
    ensures
        normalize(parts).is_none(),
    decreases parts.len() - i,
{
    if i == parts.len() {
        assert(parts.take(i) =~= parts);
    } else {
        assert(parts.take(i + 1).drop_last() =~= parts.take(i));
        lemma_normalize_none_extends(parts, i + 1);
    }
}

/// The outcome of `lexical_absolute_path`.
pub open spec fn lexical_absolute(p: Seq<char>) -> Outcome<Seq<Seq<char>>> {
    if !is_absolute(p) {
        Err(boundary_error())
    } else {
        match normalize(components(p)) {
            None => Err(boundary_error()),
            Some(parts) => Ok(parts),
        }
    }
}

/// `r` holds the components `expected` of a path, or its error.
pub open spec fn matches_parts(r: Result<Vec<String>, ControlError>, expected: Outcome<Seq<Seq<char>>>) -> bool {
    match (r, expected) {
        (Ok(a), Ok(b)) => texts(a@) == b,
        (Err(e), Err(spec)) => is_error(e, spec.0, spec.1, spec.2),
        _ => false,
    }
}

/// Normalizes an absolute path lexically; a relative path, or a `..` above
/// the root, is a boundary error. The result holds the components.
pub fn lexical_absolute_path(path: &str) -> (result: Result<Vec<String>, ControlError>)
    ensures
        matches_parts(result, lexical_absolute(path@)),
{
    if !path_is_absolute(path) {
        return Err(project_boundary_error());
    }
    let parts = path_components(path);
    let ghost all = components(path@);
    let mut stack: Vec<String> = Vec::new();
    let mut i: usize = 0;
    proof {
        assert(all.take(0) =~= Seq::<Seq<char>>::empty());
        assert(texts(stack@) =~= Seq::<Seq<char>>::empty());
    }
    while i < parts.len()
        invariant
            texts(parts@) == all,
            all == components(path@),
            i <= parts.len(),
            normalize(all.take(i as int)) == Some(texts(stack@)),
        decreases parts.len() - i,
    {
        proof {
            assert(all.take(i + 1).drop_last() =~= all.take(i as int));
            assert(all.take(i + 1).last() == parts@[i as int]@);
        }
        if is_parent_dir(&parts[i]) {
            if stack.len() == 0 {
                proof {
                    lemma_normalize_none_extends(all, i + 1);
                }
                return Err(project_boundary_error());
            }
            let ghost before = stack@;
            let _parent = stack.pop();
            proof {
                assert(texts(stack@) =~= texts(before).drop_last());
            }
        } else {
            let ghost before = stack@;
            stack.push(parts[i].clone());
            proof {
                assert(texts(stack@) =~= texts(before).push(parts@[i as int]@));
            }
        }
        i = i + 1;
    }
    proof {
        assert(all.take(parts.len() as int) =~= all);
    }
    Ok(stack)
}

/// Whether `prefix` is a leading run of `whole`.
pub fn parts_start_with(whole: &Vec<String>, prefix: &Vec<String>) -> (result: bool)
    ensures
        result == starts_with(texts(whole@), texts(prefix@)),
{
    if prefix.len() > whole.len() {
        return false;
    }
    let mut i: usize = 0;
    while i < prefix.len()
        invariant
            prefix@.len() <= whole@.len(),
            i <= prefix@.len(),
            forall|j: int| 0 <= j < i ==> texts(whole@)[j] == texts(prefix@)[j],
        decreases prefix.len() - i,
    {
        if !crate::text::str_equals(whole[i].as_str(), prefix[i].as_str()) {
            proof {
                assert(texts(whole@).take(prefix@.len() as int)[i as int] != texts(prefix@)[i as int]);
            }
            return false;
        }
        i = i + 1;
    }
    proof {
        assert(texts(whole@).take(prefix@.len() as int) =~= texts(prefix@));
    }
    true
}

/// Whether the components of `parts` contain `..`.
pub fn has_parent_dir(parts: &Vec<String>) -> (result: bool)
    ensures
        result == texts(parts@).contains(parent_dir()),
{
    let mut i: usize = 0;
    while i < parts.len()
        invariant
            i <= parts@.len(),
            forall|j: int| 0 <= j < i ==> texts(parts@)[j] != parent_dir(),
        decreases parts.len() - i,
    {
        if is_parent_dir(&parts[i]) {
            proof {
                assert(texts(parts@)[i as int] == parent_dir());
            }
            return true;
        }
        i = i + 1;
    }
    false
}

/// The Project root and the target a permission path designates, before any
/// filesystem facts are read: a path holding `..` is rejected outright (a
/// lexical `symlink/..` could hide a real escape), a relative path is taken
/// under the root, and the target must lie under the root.
pub open spec fn permission_target(path: Seq<char>, project_root: Seq<char>) -> Outcome<
    (Seq<Seq<char>>, Seq<Seq<char>>),
> {
    match lexical_absolute(project_root) {
        Err(e) => Err(e),
        Ok(root) => if components(path).contains(parent_dir()) {
            Err(boundary_error())
        } else {
            let joined = if is_absolute(path) {
                components(path)
            } else {
                root + components(path)
            };
            if !starts_with(joined, root) {
                Err(boundary_error())
            } else {
                Ok((root, joined))
            }
        },
    }
}

/// The lexical stage of a Project boundary check (see `permission_target`).
/// Returns the components of the root and of the target.
pub fn permission_path_target(path: &str, project_root: &str) -> (result: Result<
    (Vec<String>, Vec<String>),
    ControlError,
>)
    ensures
        match (result, permission_target(path@, project_root@)) {
            (Ok((root, target)), Ok((r, t))) => texts(root@) == r && texts(target@) == t,
            (Err(e), Err(spec)) => is_error(e, spec.0, spec.1, spec.2),
            _ => false,
        },
{
    let root = match lexical_absolute_path(project_root) {
        Ok(root) => root,
        Err(e) => return Err(e),
    };
    let parts = path_components(path);
    if has_parent_dir(&parts) {
        return Err(project_boundary_error());
    }
    let joined = if path_is_absolute(path) {
        parts
    } else {
        let mut joined: Vec<String> = Vec::new();
        let mut i: usize = 0;
        while i < root.len()
            invariant
                i <= root@.len(),
                texts(joined@) == texts(root@).take(i as int),
            decreases root.len() - i,
        {
            let ghost before = joined@;
            joined.push(root[i].clone());
            proof {
                assert(texts(joined@) =~= texts(before).push(texts(root@)[i as int]));
                assert(texts(root@).take(i + 1) =~= texts(root@).take(i as int).push(texts(root@)[i as int]));
            }
            i = i + 1;
        }
        let mut j: usize = 0;
        proof {
            assert(texts(root@).take(root@.len() as int) =~= texts(root@));
        }
        while j < parts.len()
            invariant
                j <= parts@.len(),
                texts(joined@) == texts(root@) + texts(parts@).take(j as int),
            decreases parts.len() - j,
        {
            let ghost before = joined@;
            joined.push(parts[j].clone());
            proof {
                assert(texts(joined@) =~= texts(before).push(texts(parts@)[j as int]));
                assert(texts(parts@).take(j + 1) =~= texts(parts@).take(j as int).push(texts(parts@)[j as int]));
            }
            j = j + 1;
        }
        proof {
            assert(texts(parts@).take(parts@.len() as int) =~= texts(parts@));
        }
        joined
    };
    if !parts_start_with(&joined, &root) {
        return Err(project_boundary_error());
    }
    Ok((root, joined))
}

/// What the filesystem reports for a permission target: the canonical root
/// and the canonical form of the target's nearest existing ancestor, each
/// `None` when it is not valid UTF-8.
#[derive(Debug)]
pub struct PathFacts {
    pub canonical_root: Option<String>,
    pub canonical_existing: Option<String>,
}

/// The facts confine the target to the Project: both canonical paths are
/// absolute text and the existing ancestor lies under the root.
pub open spec fn facts_confine(facts: PathFacts) -> bool {
    match (facts.canonical_root, facts.canonical_existing) {
        (Some(root), Some(existing)) => is_absolute(root@) && is_absolute(existing@) && starts_with(
            components(existing@),
            components(root@),
        ),
        _ => false,
    }
}

/// The filesystem stage of a Project boundary check: a failure to read the
/// facts, or facts that do not confine the target, is a boundary error.
pub fn confine_by_facts(facts: Result<PathFacts, ()>) -> (result: Result<(), ControlError>)
    ensures
        match facts {
            Ok(f) if facts_confine(f) => result is Ok,
            _ => result matches Err(e) && is_error(e, boundary_error().0, boundary_error().1, boundary_error().2),
        },
{
    let facts = match facts {
        Ok(f) => f,
        Err(_) => return Err(project_boundary_error()),
    };
    match (&facts.canonical_root, &facts.canonical_existing) {
        (Some(root), Some(existing)) => {
            if path_is_absolute(root.as_str()) && path_is_absolute(existing.as_str()) {
                let root_parts = path_components(root.as_str());
                let existing_parts = path_components(existing.as_str());
                if parts_start_with(&existing_parts, &root_parts) {
                    return Ok(());
                }
            }
            Err(project_boundary_error())
        },
        _ => Err(project_boundary_error()),
    }
}

} // verus!
