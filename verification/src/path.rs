//! Directory paths.

use vstd::prelude::*;

verus! {

/// What a platform puts between the names of a path.
#[derive(Clone, Copy, PartialEq, Eq, Structural, Debug)]
pub enum Separator {
    /// `/`.
    Slash,
    /// `\`, on a platform that has drives, and takes a slash for a separator, too.
    Backslash,
}

impl Separator {
    /// The separator as a character.
    pub open spec fn char(self) -> char {
        match self {
            Separator::Slash => '/',
            Separator::Backslash => '\\',
        }
    }
}

/// A directory path: a root, and the names of the directories that lead down from it. It knows the
/// separator that the platform puts between names.
#[derive(Debug)]
pub struct DirPath {
    root: String,
    separator: Separator,
    names: Vec<String>,
}

/// The value of a path.
#[verifier::ext_equal]
pub struct PathView {
    /// The text of the root.
    pub root: Seq<char>,
    /// What goes between names.
    pub separator: Separator,
    /// One name for each directory below the root.
    pub names: Seq<Seq<char>>,
}

impl View for DirPath {
    type V = PathView;

    closed spec fn view(&self) -> PathView {
        PathView {
            root: self.root@,
            separator: self.separator,
            names: self.names@.map_values(|name: String| name@),
        }
    }
}

/// Whether a text is the bare name of a drive: a letter and a colon.
pub open spec fn is_drive(base: Seq<char>) -> bool {
    &&& base.len() == 2
    &&& base[1] == ':'
    &&& ('a' <= base[0] && base[0] <= 'z') || ('A' <= base[0] && base[0] <= 'Z')
}

/// Whether a separator goes between the text `base` and a name that is put after it. None does if
/// `base` is empty or ends in one; a slash is one on every platform. Nor does one after the bare
/// name of a drive, on a platform that has drives.
pub open spec fn needs_separator(base: Seq<char>, separator: Separator) -> bool {
    &&& base.len() > 0
    &&& base.last() != '/'
    &&& separator == Separator::Backslash ==> base.last() != '\\' && !is_drive(base)
}

/// The text of the path `base` extended by a name.
pub open spec fn joined(base: Seq<char>, separator: Separator, name: Seq<char>) -> Seq<char> {
    if needs_separator(base, separator) {
        base.push(separator.char()) + name
    } else {
        base + name
    }
}

impl PathView {
    /// The path of the directory `name` in this directory.
    pub open spec fn child(self, name: Seq<char>) -> PathView {
        PathView { names: self.names.push(name), ..self }
    }

    /// The text of this path.
    pub open spec fn text(self) -> Seq<char>
        decreases self.names.len(),
    {
        if self.names.len() == 0 {
            self.root
        } else {
            joined(
                (PathView { names: self.names.drop_last(), ..self }).text(),
                self.separator,
                self.names.last(),
            )
        }
    }
}

/// Whether `path` lies at or below `dir`.
pub open spec fn is_within(path: PathView, dir: PathView) -> bool {
    &&& path.root == dir.root
    &&& path.separator == dir.separator
    &&& dir.names.is_prefix_of(path.names)
}

impl DirPath {
    /// The path of the directory with the given text, on a platform with the given separator.
    pub fn new(root: String, separator: Separator) -> (path: DirPath)
        ensures
            path@ == (PathView { root: root@, separator, names: Seq::empty() }),
    {
        let path = DirPath { root, separator, names: Vec::new() };
        assert(path@.names =~= Seq::empty());
        path
    }

    /// The path of the directory `name` in this directory.
    pub fn child(&self, name: &str) -> (path: DirPath)
        ensures
            path@ == self@.child(name@),
    {
        let mut path = self.clone();
        path.names.push(name.to_owned());
        assert(path@.names =~= self@.names.push(name@));
        path
    }

    /// The number of names below the root.
    pub fn depth(&self) -> (n: usize)
        ensures
            n == self@.names.len(),
    {
        self.names.len()
    }

    /// One of the names below the root, counted from it.
    pub fn name(&self, i: usize) -> (name: &str)
        requires
            i < self@.names.len(),
        ensures
            name@ == self@.names[i as int],
    {
        self.names[i].as_str()
    }

    /// The text of this path.
    pub fn to_text(&self) -> (text: String)
        ensures
            text@ == self@.text(),
    {
        let mut text = self.root.clone();
        let mut i: usize = 0;
        assert(self@.names.take(0) =~= Seq::empty());
        while i < self.names.len()
            invariant
                i <= self.names.len(),
                text@ == (PathView { names: self@.names.take(i as int), ..self@ }).text(),
            decreases self.names.len() - i,
        {
            proof {
                assert(self@.names.take(i + 1).drop_last() =~= self@.names.take(i as int));
            }
            if ends_open(text.as_str(), self.separator) {
                match self.separator {
                    Separator::Slash => {
                        proof {
                            reveal_strlit("/");
                            assert(text@ + "/"@ =~= text@.push('/'));
                        }
                        text.append("/");
                    },
                    Separator::Backslash => {
                        proof {
                            reveal_strlit("\\");
                            assert(text@ + "\\"@ =~= text@.push('\\'));
                        }
                        text.append("\\");
                    },
                }
            }
            text.append(self.names[i].as_str());
            i = i + 1;
        }
        proof {
            assert(self@.names.take(i as int) =~= self@.names);
        }
        text
    }
}

/// Whether a separator has to go between this text and a name that is put after it.
fn ends_open(text: &str, separator: Separator) -> (open: bool)
    ensures
        open == needs_separator(text@, separator),
{
    let len: usize = text.unicode_len();
    if len == 0 {
        return false;
    }
    let last = text.get_char(len - 1);
    if last == '/' {
        return false;
    }
    if separator == Separator::Slash {
        return true;
    }
    if last == '\\' {
        return false;
    }
    if len != 2 || last != ':' {
        return true;
    }
    let letter = text.get_char(0);
    !(('a' <= letter && letter <= 'z') || ('A' <= letter && letter <= 'Z'))
}

impl Clone for DirPath {
    fn clone(&self) -> (copy: Self)
        ensures
            copy@ == self@,
    {
        let names = self.names.clone();
        assert(names@ =~= self.names@);
        DirPath { root: self.root.clone(), separator: self.separator, names }
    }
}

} // verus!
