//! Absolute host paths as lists of components.

use vstd::prelude::*;
use crate::shell_ir;
use crate::text;

verus! {

/// An absolute path on the host: its components below the root directory.
#[derive(Debug, PartialEq, Eq, Hash)]
pub struct HostPath {
    components: Vec<String>,
}

impl View for HostPath {
    type V = Seq<Seq<char>>;

    closed spec fn view(&self) -> Seq<Seq<char>> {
        text::texts(self.components@)
    }
}

/// What a path denotes, if there is one.
pub open spec fn optional(path: Option<HostPath>) -> Option<Seq<Seq<char>>> {
    match path {
        Some(path) => Some(path@),
        None => None,
    }
}

impl Clone for HostPath {
    fn clone(&self) -> (r: Self)
        ensures
            r@ == self@,
    {
        HostPath { components: text::copy_texts(&self.components) }
    }
}

/// The text of a path below the root directory.
pub open spec fn below_root(components: Seq<Seq<char>>) -> Seq<char>
    decreases components.len(),
{
    if components.len() == 0 {
        Seq::empty()
    } else {
        below_root(components.drop_last()) + "/"@ + components.last()
    }
}

/// The text of an absolute path.
pub open spec fn path_text(components: Seq<Seq<char>>) -> Seq<char> {
    if components.len() == 0 {
        "/"@
    } else {
        below_root(components)
    }
}

/// The text of a path relative to a directory: its components with `/`
/// between them.
pub open spec fn relative_text(components: Seq<Seq<char>>) -> Seq<char>
    decreases components.len(),
{
    if components.len() == 0 {
        Seq::empty()
    } else if components.len() == 1 {
        components[0]
    } else {
        relative_text(components.drop_last()) + "/"@ + components.last()
    }
}

/// The components that count: neither empty nor `.`.
pub open spec fn counted(components: Seq<Seq<char>>) -> Seq<Seq<char>>
    decreases components.len(),
{
    if components.len() == 0 {
        Seq::empty()
    } else if components.last().len() == 0 || components.last() == "."@ {
        counted(components.drop_last())
    } else {
        counted(components.drop_last()).push(components.last())
    }
}

/// The components of the text of an absolute path.
pub open spec fn parsed(path: Seq<char>) -> Option<Seq<Seq<char>>> {
    if path.len() == 0 || path[0] != '/' || path.contains('\0') {
        None
    } else {
        Some(counted(text::split(path, seq!['/'])))
    }
}

/// Where a list of components leads from a directory, with `.` and `..`
/// collapsed lexically; a `..` above the root directory leads nowhere, and the
/// path reached so far is the error.
pub open spec fn walked(base: Seq<Seq<char>>, parts: Seq<Seq<char>>) -> Result<
    Seq<Seq<char>>,
    Seq<Seq<char>>,
>
    decreases parts.len(),
{
    if parts.len() == 0 {
        Ok(base)
    } else {
        match walked(base, parts.drop_last()) {
            Err(reached) => Err(reached),
            Ok(reached) => {
                let part = parts.last();
                if part.len() == 0 || part == "."@ {
                    Ok(reached)
                } else if part == ".."@ {
                    if reached.len() == 0 {
                        Err(reached)
                    } else {
                        Ok(reached.drop_last())
                    }
                } else {
                    Ok(reached.push(part))
                }
            },
        }
    }
}

/// Where a session path leads from a directory.
pub open spec fn resolved(base: Seq<Seq<char>>, path: Seq<char>) -> Result<
    Seq<Seq<char>>,
    Seq<Seq<char>>,
> {
    walked(base, shell_ir::components(path))
}

/// Whether one path is another or lies below it.
pub open spec fn lies_in(path: Seq<Seq<char>>, root: Seq<Seq<char>>) -> bool {
    root.len() <= path.len() && path.take(root.len() as int) == root
}

proof fn lemma_walk_stays_below(base: Seq<Seq<char>>, parts: Seq<Seq<char>>)
    requires
        !parts.contains(".."@),
    ensures
        walked(base, parts) is Ok,
        lies_in(walked(base, parts)->Ok_0, base),
    decreases parts.len(),
{
    if parts.len() == 0 {
        assert(base.take(base.len() as int) =~= base);
    } else {
        let rest = parts.drop_last();
        assert(!rest.contains(".."@)) by {
            if rest.contains(".."@) {
                let i = choose|i: int| 0 <= i < rest.len() && rest[i] == ".."@;
                assert(parts[i] == ".."@);
            }
        }
        lemma_walk_stays_below(base, rest);
        assert(parts.contains(parts.last()));
        let reached = walked(base, rest)->Ok_0;
        assert(reached.push(parts.last()).take(base.len() as int) =~= reached.take(
            base.len() as int,
        ));
    }
}

/// A session path never leads out of the directory it starts from.
pub proof fn session_paths_stay_below(base: Seq<Seq<char>>, path: Seq<char>)
    requires
        shell_ir::path_fault(path) is None,
    ensures
        resolved(base, path) is Ok,
        lies_in(resolved(base, path)->Ok_0, base),
{
    reveal_strlit("..");
    assert(".."@ =~= shell_ir::parent_component());
    lemma_walk_stays_below(base, shell_ir::components(path));
}

/// What lies in a directory that lies in another, lies in the other.
pub proof fn lemma_lies_in_transitive(
    a: Seq<Seq<char>>,
    b: Seq<Seq<char>>,
    c: Seq<Seq<char>>,
)
    requires
        lies_in(a, b),
        lies_in(b, c),
    ensures
        lies_in(a, c),
{
    assert(a.take(c.len() as int) =~= b.take(c.len() as int)) by {
        assert forall|i: int| 0 <= i < c.len() implies a[i] == b[i] by {
            assert(a.take(b.len() as int)[i] == b[i]);
        }
    }
}

impl HostPath {
    /// Read the text of an absolute path.
    pub fn parse(path: &str) -> (r: Option<Self>)
        ensures
            match parsed(path@) {
                Some(components) => r is Some && r->0@ == components,
                None => r is None,
            },
    {
        let chars = text::chars_of(path);
        if chars.len() == 0 || chars[0] != '/' || text::holds_char(&chars, '\0') {
            return None;
        }
        let separators: Vec<char> = vec!['/'];
        assert(separators@ =~= seq!['/']);
        let parts = text::split_text(path, &separators);
        let mut components: Vec<String> = Vec::new();
        let ghost all = text::texts(parts@);
        let mut i: usize = 0;
        assert(all.take(0) =~= Seq::empty());
        assert(text::texts(components@) =~= Seq::empty());
        while i < parts.len()
            invariant
                i <= parts.len(),
                all == text::texts(parts@),
                text::texts(components@) == counted(all.take(i as int)),
            decreases parts.len() - i,
        {
            let ghost before = text::texts(components@);
            proof {
                assert(all.take(i + 1).drop_last() =~= all.take(i as int));
            }
            if !parts[i].as_str().is_empty() && !text::same_text(parts[i].as_str(), ".") {
                components.push(parts[i].clone());
                assert(text::texts(components@) =~= before.push(all[i as int]));
            }
            i = i + 1;
        }
        assert(all.take(i as int) =~= all);
        Some(HostPath { components })
    }

    /// The text of this path.
    pub fn to_text(&self) -> (r: String)
        ensures
            r@ == path_text(self@),
    {
        if self.components.len() == 0 {
            return "/".to_owned();
        }
        let mut r = String::new();
        let ghost all = self@;
        let mut i: usize = 0;
        assert(all.take(0) =~= Seq::empty());
        while i < self.components.len()
            invariant
                i <= self.components.len(),
                all == self@,
                r@ == below_root(all.take(i as int)),
            decreases self.components.len() - i,
        {
            r.append("/");
            r.append(self.components[i].as_str());
            i = i + 1;
            assert(all.take(i as int).drop_last() =~= all.take(i - 1));
        }
        assert(all.take(i as int) =~= all);
        r
    }

    /// Whether this path is `root` or lies below it.
    pub fn starts_with(&self, root: &HostPath) -> (r: bool)
        ensures
            r == lies_in(self@, root@),
    {
        if self.components.len() < root.components.len() {
            return false;
        }
        let mut i: usize = 0;
        while i < root.components.len()
            invariant
                i <= root.components.len() <= self.components.len(),
                forall|j: int| 0 <= j < i ==> #[trigger] self@[j] == root@[j],
            decreases root.components.len() - i,
        {
            if !text::same_text(self.components[i].as_str(), root.components[i].as_str()) {
                proof {
                    assert(self@[i as int] != root@[i as int]);
                    assert(self@.take(root@.len() as int)[i as int] == self@[i as int]);
                }
                return false;
            }
            assert(self@[i as int] == root@[i as int]);
            i = i + 1;
        }
        assert(self@.take(root@.len() as int) =~= root@);
        true
    }

    /// The text of this path relative to `root`, which it lies in.
    pub fn relative_to(&self, root: &HostPath) -> (r: String)
        requires
            lies_in(self@, root@),
        ensures
            r@ == relative_text(self@.skip(root@.len() as int)),
    {
        let mut r = String::new();
        let ghost rest = self@.skip(root@.len() as int);
        let from = root.components.len();
        let mut i: usize = from;
        assert(rest.take(0) =~= Seq::empty());
        while i < self.components.len()
            invariant
                from == root@.len(),
                from <= i <= self.components.len(),
                rest == self@.skip(root@.len() as int),
                r@ == relative_text(rest.take(i - from)),
            decreases self.components.len() - i,
        {
            let ghost before = r@;
            if i > from {
                r.append("/");
            }
            r.append(self.components[i].as_str());
            i = i + 1;
            proof {
                let now = rest.take(i - from);
                assert(now.drop_last() =~= rest.take(i - 1 - from));
                assert(now.last() == self@[i - 1]);
                if i - 1 == from {
                    assert(now.len() == 1);
                    assert(before =~= Seq::empty());
                    assert(r@ =~= now[0]);
                }
            }
        }
        assert(rest.take(i - from) =~= rest);
        r
    }

    /// Join a session path onto this directory, collapsing `.` and `..`
    /// lexically. The error is the path that has no parent.
    pub fn resolve(&self, path: &str) -> (r: Result<HostPath, HostPath>)
        ensures
            match resolved(self@, path@) {
                Ok(target) => r is Ok && r->Ok_0@ == target,
                Err(reached) => r is Err && r->Err_0@ == reached,
            },
    {
        let separators: Vec<char> = vec!['/', '\\'];
        assert(separators@ =~= shell_ir::path_separators());
        let parts = text::split_text(path, &separators);
        let ghost all = text::texts(parts@);
        let ghost wanted = walked(self@, all);
        let mut reached = self.clone();
        let mut i: usize = 0;
        assert(all.take(0) =~= Seq::empty());
        while i < parts.len()
            invariant
                i <= parts.len(),
                all == text::texts(parts@),
                all == shell_ir::components(path@),
                walked(self@, all.take(i as int)) == Ok::<Seq<Seq<char>>, Seq<Seq<char>>>(
                    reached@,
                ),
            decreases parts.len() - i,
        {
            let ghost before = reached@;
            let ghost next = all.take(i + 1);
            proof {
                assert(next.drop_last() =~= all.take(i as int));
                assert(next.last() == parts@[i as int]@);
            }
            let part = parts[i].as_str();
            if part.is_empty() || text::same_text(part, ".") {
            } else if text::same_text(part, "..") {
                if reached.components.len() == 0 {
                    proof {
                        lemma_walk_fails(self@, all, i + 1);
                    }
                    return Err(reached);
                }
                reached.components.pop();
                assert(reached@ =~= before.drop_last());
            } else {
                reached.components.push(parts[i].clone());
                assert(reached@ =~= before.push(part@));
            }
            i = i + 1;
        }
        assert(all.take(i as int) =~= all);
        Ok(reached)
    }

    /// Whether two paths have the same components.
    pub fn same_as(&self, other: &HostPath) -> (r: bool)
        ensures
            r == (self@ == other@),
    {
        if self.components.len() != other.components.len() {
            return false;
        }
        let r = self.starts_with(other);
        assert(self@.take(other@.len() as int) =~= self@);
        r
    }
}

proof fn lemma_walk_fails(base: Seq<Seq<char>>, parts: Seq<Seq<char>>, k: int)
    requires
        0 <= k <= parts.len(),
        walked(base, parts.take(k)) is Err,
    ensures
        walked(base, parts) == walked(base, parts.take(k)),
    decreases parts.len() - k,
{
    if k == parts.len() {
        assert(parts.take(k) =~= parts);
    } else {
        assert(parts.take(k + 1).drop_last() =~= parts.take(k));
        lemma_walk_fails(base, parts, k + 1);
    }
}

} // verus!
