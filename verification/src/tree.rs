//! Files held in memory: what a step reads and writes below one directory.
use crate::ctx::{common_dir_of, Ctx};
use crate::failure::{cannot_read_text, Failure};
use crate::paths::{joined_path, path_join};
use crate::text::same;
use vstd::prelude::*;

verus! {

/// The text of the last entry for `path`.
pub open spec fn entry_of(files: Seq<(String, String)>, path: Seq<char>) -> Option<Seq<char>>
    decreases files.len(),
{
    if files.len() == 0 {
        None
    } else if files.last().0@ == path {
        Some(files.last().1@)
    } else {
        entry_of(files.drop_last(), path)
    }
}

/// Files by their path below one directory. Its view is the map from path to text.
pub struct Tree {
    pub files: Vec<(String, String)>,
}

impl View for Tree {
    type V = Map<Seq<char>, Seq<char>>;

    open spec fn view(&self) -> Map<Seq<char>, Seq<char>> {
        Map::new(
            |p: Seq<char>| entry_of(self.files@, p) is Some,
            |p: Seq<char>| entry_of(self.files@, p).unwrap(),
        )
    }
}

/// Replacing the text of an entry with no later entry of its path replaces the text
/// that the path has.
proof fn lemma_entry_updated(
    files: Seq<(String, String)>,
    i: int,
    new: (String, String),
    path: Seq<char>,
)
    requires
        0 <= i < files.len(),
        new.0@ == files[i].0@,
        forall|j: int| i < j < files.len() ==> (#[trigger] files[j]).0@ != new.0@,
    ensures
        entry_of(files.update(i, new), path) == (if path == new.0@ {
            Some(new.1@)
        } else {
            entry_of(files, path)
        }),
    decreases files.len(),
{
    let u = files.update(i, new);
    if i == files.len() - 1 {
        assert(u.drop_last() =~= files.drop_last());
    } else {
        assert(u.last() == files.last());
        assert(u.drop_last() =~= files.drop_last().update(i, new));
        lemma_entry_updated(files.drop_last(), i, new, path);
    }
}

impl Tree {
    /// A tree without files.
    pub fn new() -> (r: Tree)
        ensures
            r@ == Map::<Seq<char>, Seq<char>>::empty(),
    {
        let r = Tree { files: Vec::new() };
        assert(r@ =~= Map::<Seq<char>, Seq<char>>::empty());
        r
    }

    /// The index of the last entry for `path`.
    fn position(&self, path: &str) -> (r: Option<usize>)
        ensures
            r is Some <==> self@.dom().contains(path@),
            r matches Some(i) ==> {
                &&& i < self.files@.len()
                &&& self.files@[i as int].0@ == path@
                &&& self.files@[i as int].1@ == self@[path@]
                &&& forall|j: int|
                    i < j < self.files@.len() ==> (#[trigger] self.files@[j]).0@ != path@
            },
    {
        let mut n: usize = self.files.len();
        assert(self.files@.take(n as int) =~= self.files@);
        while n > 0
            invariant
                n <= self.files@.len(),
                entry_of(self.files@, path@) == entry_of(self.files@.take(n as int), path@),
                forall|j: int|
                    n <= j < self.files@.len() ==> (#[trigger] self.files@[j]).0@ != path@,
            decreases n,
        {
            let ghost front = self.files@.take(n as int);
            assert(front.last() == self.files@[n - 1]);
            assert(front.drop_last() =~= self.files@.take(n - 1));
            if same(&self.files[n - 1].0, path) {
                return Some(n - 1);
            }
            n -= 1;
        }
        None
    }

    /// The text of the file at `path`.
    pub fn get(&self, path: &str) -> (r: Option<&str>)
        ensures
            r is Some <==> self@.dom().contains(path@),
            r matches Some(s) ==> s@ == self@[path@],
    {
        match self.position(path) {
            Some(i) => Some(self.files[i].1.as_str()),
            None => None,
        }
    }

    /// Makes `text` the text of the file at `path`.
    pub fn set(&mut self, path: &str, text: String)
        ensures
            final(self)@ == old(self)@.insert(path@, text@),
    {
        match self.position(path) {
            Some(i) => {
                let entry = (path.to_owned(), text);
                proof {
                    assert forall|p: Seq<char>| #[trigger]
                        entry_of(self.files@.update(i as int, entry), p) == (if p == path@ {
                            Some(text@)
                        } else {
                            entry_of(self.files@, p)
                        }) by {
                        lemma_entry_updated(self.files@, i as int, entry, p);
                    }
                }
                self.files.set(i, entry);
            },
            None => {
                let ghost before = self.files@;
                self.files.push((path.to_owned(), text));
                assert(self.files@.drop_last() =~= before);
            },
        }
        assert(self@ =~= old(self)@.insert(path@, text@));
    }
}

/// `f` may make `after` of `before`.
pub open spec fn edit_gives<F: Fn(&str) -> String>(
    f: F,
    before: Seq<char>,
    after: Seq<char>,
) -> bool {
    exists|s: &str, o: String|
        s@ == before && o@ == after && #[trigger] call_ensures(f, (s,), o)
}

/// Edits a file of the common kernel tree.
pub fn edit_common<F: Fn(&str) -> String>(ctx: &Ctx, tree: &mut Tree, rel: &str, f: F) -> (r:
    Result<(), Failure>)
    requires
        forall|s: &str| call_requires(f, (s,)),
    ensures
        r is Ok <==> old(tree)@.dom().contains(rel@),
        r matches Err(e) ==> e@ == cannot_read_text(
            joined_path(common_dir_of(ctx.workspace()), rel@),
        ) && *final(tree) == *old(tree),
        r is Ok ==> exists|after: Seq<char>| #[trigger]
            edit_gives(f, old(tree)@[rel@], after) && final(tree)@ == old(tree)@.insert(
                rel@,
                after,
            ),
{
    match tree.get(rel) {
        Some(before) => {
            let after = f(before);
            assert(edit_gives(f, old(tree)@[rel@], after@));
            tree.set(rel, after);
            Ok(())
        },
        None => Err(Failure::CannotRead { path: path_join(&ctx.common_dir(), rel) }),
    }
}

} // verus!
