//! Paths into the filesystem, and their components.

use vstd::prelude::*;

verus! {

/// The separator of the components of a path.
pub const SLASH: char = '/';

/// One step of a path.
#[derive(Clone, Debug, PartialEq, Eq)]
pub enum Component {
    /// A prefix of the platform, such as a drive letter. No path into an
    /// image has one.
    Prefix,
    /// The root of the filesystem.
    RootDir,
    /// The directory that the path has reached: `.`.
    CurDir,
    /// The parent of the directory that the path has reached: `..`.
    ParentDir,
    /// An entry of the directory that the path has reached.
    Normal(String),
}

/// A step of a path as a mathematical value.
pub enum ComponentView {
    Prefix,
    RootDir,
    CurDir,
    ParentDir,
    Normal(Seq<char>),
}

impl View for Component {
    type V = ComponentView;

    open spec fn view(&self) -> ComponentView {
        match self {
            Component::Prefix => ComponentView::Prefix,
            Component::RootDir => ComponentView::RootDir,
            Component::CurDir => ComponentView::CurDir,
            Component::ParentDir => ComponentView::ParentDir,
            Component::Normal(name) => ComponentView::Normal(name@),
        }
    }
}

/// The views of the components in `components`, in order.
pub open spec fn views(components: Seq<Component>) -> Seq<ComponentView> {
    components.map_values(|c: Component| c@)
}

/// The number of characters of `path` before its first separator; the
/// length of `path` when it holds none.
pub open spec fn first_separator(path: Seq<char>) -> int
    decreases path.len(),
{
    if path.len() == 0 || path[0] == SLASH {
        0
    } else {
        1 + first_separator(path.drop_first())
    }
}

/// The step that the text between two separators stands for.
pub open spec fn segment(text: Seq<char>) -> ComponentView {
    if text =~= seq!['.'] {
        ComponentView::CurDir
    } else if text =~= seq!['.', '.'] {
        ComponentView::ParentDir
    } else {
        ComponentView::Normal(text)
    }
}

/// The steps that the texts between the separators of `path` stand for.
/// Nothing stands between two separators that follow each other, and
/// nothing after one that ends the path.
pub open spec fn spec_segments(path: Seq<char>) -> Seq<ComponentView>
    decreases path.len(),
{
    if path.len() == 0 {
        seq![]
    } else {
        let k = first_separator(path);
        let after = if 0 <= k < path.len() {
            spec_segments(path.subrange(k + 1, path.len() as int))
        } else {
            seq![]
        };
        if k == 0 {
            after
        } else {
            seq![segment(path.subrange(0, k))] + after
        }
    }
}

/// The components of `path`: the root where the path starts with a
/// separator, then its segments.
pub open spec fn spec_components(path: Seq<char>) -> Seq<ComponentView> {
    if path.len() > 0 && path[0] == SLASH {
        seq![ComponentView::RootDir] + spec_segments(path)
    } else {
        spec_segments(path)
    }
}

/// `first_separator` is the one position that has no separator before it
/// and either a separator at it or the end of the path.
pub proof fn lemma_first_separator(path: Seq<char>, k: int)
    requires
        0 <= k <= path.len(),
        forall|j: int| 0 <= j < k ==> path[j] != SLASH,
        k == path.len() || path[k] == SLASH,
    ensures
        first_separator(path) == k,
    decreases path.len(),
{
    if path.len() == 0 || path[0] == SLASH {
    } else {
        let tail = path.drop_first();
        assert forall|j: int| 0 <= j < k - 1 implies tail[j] != SLASH by {
            assert(tail[j] == path[j + 1]);
        }
        lemma_first_separator(tail, k - 1);
    }
}

/// The path `.` or `..` or a name, as a component.
fn segment_component(path: &str, from: usize, to: usize) -> (c: Component)
    requires
        from < to <= path@.len(),
    ensures
        c@ == segment(path@.subrange(from as int, to as int)),
{
    let ghost text = path@.subrange(from as int, to as int);
    if to - from == 1 && path.get_char(from) == '.' {
        assert(text =~= seq!['.']);
        Component::CurDir
    } else if to - from == 2 && path.get_char(from) == '.' && path.get_char(from + 1) == '.' {
        assert(text =~= seq!['.', '.']);
        Component::ParentDir
    } else {
        assert(!(text =~= seq!['.'])) by {
            if text =~= seq!['.'] {
                assert(text.len() == 1);
                assert(text[0] == '.');
            }
        }
        assert(!(text =~= seq!['.', '.'])) by {
            if text =~= seq!['.', '.'] {
                assert(text.len() == 2);
                assert(text[0] == '.');
                assert(text[1] == '.');
            }
        }
        Component::Normal(path.substring_char(from, to).to_owned())
    }
}

/// Splits `path` into its components.
pub fn components(path: &str) -> (list: Vec<Component>)
    ensures
        views(list@) == spec_components(path@),
{
    let n = path.unicode_len();
    let mut list: Vec<Component> = Vec::new();
    if n > 0 && path.get_char(0) == SLASH {
        list.push(Component::RootDir);
    }
    let ghost head = views(list@);
    assert(head =~= if n > 0 && path@[0] == SLASH {
        seq![ComponentView::RootDir]
    } else {
        seq![]
    });
    let mut start: usize = 0;
    assert(path@.subrange(0, n as int) =~= path@);
    while start < n
        invariant
            n == path@.len(),
            start <= n,
            head + spec_segments(path@) == views(list@) + spec_segments(path@.subrange(start as int, n as int)),
        decreases n - start,
    {
        let ghost left = path@.subrange(start as int, n as int);
        let mut end: usize = start;
        while end < n && path.get_char(end) != SLASH
            invariant
                n == path@.len(),
                start <= end <= n,
                forall|j: int| start <= j < end ==> path@[j] != SLASH,
            decreases n - end,
        {
            end = end + 1;
        }
        proof {
            assert forall|j: int| 0 <= j < end - start implies left[j] != SLASH by {
                assert(left[j] == path@[start + j]);
            }
            lemma_first_separator(left, end - start);
            if end < n {
                assert(left.subrange(end - start + 1, left.len() as int) =~= path@.subrange(end + 1, n as int));
            }
            assert(left.subrange(0, end - start) =~= path@.subrange(start as int, end as int));
        }
        let ghost before = views(list@);
        if end > start {
            let c = segment_component(path, start, end);
            list.push(c);
            assert(views(list@) =~= before + seq![c@]);
        }
        let ghost after = if end < n {
            spec_segments(path@.subrange(end + 1, n as int))
        } else {
            seq![]
        };
        assert(before + spec_segments(left) =~= views(list@) + after);
        if end < n {
            start = end + 1;
        } else {
            start = end;
            assert(path@.subrange(n as int, n as int) =~= Seq::<char>::empty());
        }
    }
    assert(path@.subrange(n as int, n as int).len() == 0);
    assert(head + spec_segments(path@) =~= views(list@));
    list
}

} // verus!
