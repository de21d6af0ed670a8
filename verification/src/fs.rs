use vstd::prelude::*;

use crate::strutil::str_eq;

verus! {

/// The map that a sequence of `(path, content)` entries denotes; a later
/// entry for the same path shadows an earlier one.
pub open spec fn entries_map(s: Seq<(Seq<char>, Seq<char>)>) -> Map<Seq<char>, Seq<char>>
    decreases s.len(),
{
    if s.len() == 0 {
        Map::<Seq<char>, Seq<char>>::empty()
    } else {
        entries_map(s.drop_last()).insert(s.last().0, s.last().1)
    }
}

/// An explicit, in-memory filesystem: the finite set of regular files the
/// engine may probe, each an absolute path with its content. The engine
/// consumes only the two primitives `is_file` and `read`, so a call's
/// outcome is a pure function of this value.
pub struct FileSystem {
    files: Vec<(String, String)>,
}

impl View for FileSystem {
    type V = Map<Seq<char>, Seq<char>>;

    closed spec fn view(&self) -> Map<Seq<char>, Seq<char>> {
        entries_map(self.files.deep_view())
    }
}

impl FileSystem {
    /// An empty filesystem.
    pub fn new() -> (r: FileSystem)
        ensures
            r@ == Map::<Seq<char>, Seq<char>>::empty(),
    {
        let fs = FileSystem { files: Vec::new() };
        proof {
            assert(fs.files.deep_view() =~= Seq::<(Seq<char>, Seq<char>)>::empty());
        }
        fs
    }

    /// Record a regular file; a second entry for the same path replaces
    /// the first.
    pub fn add_file(&mut self, path: String, content: String)
        ensures
            final(self)@ == old(self)@.insert(path@, content@),
    {
        let ghost old_entries = self.files.deep_view();
        let ghost p = path@;
        let ghost c = content@;
        self.files.push((path, content));
        proof {
            assert(self.files.deep_view() =~= old_entries.push((p, c)));
            assert(self.files.deep_view().drop_last() =~= old_entries);
        }
    }

    /// Whether `path` names a regular file.
    pub fn is_file(&self, path: &str) -> (r: bool)
        ensures
            r == self@.contains_key(path@),
    {
        self.read(path).is_some()
    }

    /// The content of the file at `path`, if one exists.
    pub fn read(&self, path: &str) -> (r: Option<&String>)
        ensures
            match r {
                Some(c) => self@.contains_key(path@) && c@ == self@[path@],
                None => !self@.contains_key(path@),
            },
    {
        let mut i: usize = self.files.len();
        proof {
            assert(self.files.deep_view().subrange(0, i as int) =~= self.files.deep_view());
        }
        while i > 0
            invariant
                0 <= i <= self.files.len(),
                self.files.deep_view().len() == self.files.len(),
                self@.contains_key(path@) <==> entries_map(
                    self.files.deep_view().subrange(0, i as int),
                ).contains_key(path@),
                self@.contains_key(path@) ==> self@[path@] == entries_map(
                    self.files.deep_view().subrange(0, i as int),
                )[path@],
            decreases i,
        {
            i = i - 1;
            let ghost upto = self.files.deep_view().subrange(0, i + 1);
            proof {
                assert(upto.drop_last() =~= self.files.deep_view().subrange(0, i as int));
                assert(upto.last() == self.files.deep_view()[i as int]);
            }
            if str_eq(self.files[i].0.as_str(), path) {
                return Some(&self.files[i].1);
            }
        }
        proof {
            assert(self.files.deep_view().subrange(0, 0) =~= Seq::<(Seq<char>, Seq<char>)>::empty());
        }
        None
    }
}

} // verus!
