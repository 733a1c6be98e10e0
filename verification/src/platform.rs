//! The operating systems that the launcher runs on, and file-system paths as plain values.
use vstd::prelude::*;

use crate::text;

verus! {

/// An operating system that the launcher runs on.
#[derive(Clone, Copy, Debug, PartialEq, Eq, Structural)]
pub enum Platform {
    Linux,
    Mac,
    Windows,
}

/// A path: its text, and the components that it is made of.
#[derive(Debug)]
pub struct OsPath {
    pub text: String,
    pub parts: Vec<String>,
}

/// What a path is made of.
pub struct OsPathView {
    pub text: Seq<char>,
    pub parts: Seq<Seq<char>>,
}

impl View for OsPath {
    type V = OsPathView;

    open spec fn view(&self) -> OsPathView {
        OsPathView { text: self.text@, parts: text::texts(self.parts@) }
    }
}

/// What an optional path is made of.
pub open spec fn path_view(p: Option<OsPath>) -> Option<OsPathView> {
    match p {
        Some(path) => Some(path@),
        None => None,
    }
}

/// The pieces of a path between its slashes that name a component: neither an empty one nor a
/// single dot does, but for a dot at the very beginning.
pub open spec fn named_pieces(pieces: Seq<Seq<char>>) -> Seq<Seq<char>>
    decreases pieces.len(),
{
    if pieces.len() == 0 {
        Seq::empty()
    } else {
        let before = named_pieces(pieces.drop_last());
        let last = pieces.last();
        if last.len() > 0 && (last != seq!['.'] || pieces.len() == 1) {
            before.push(last)
        } else {
            before
        }
    }
}

/// The components of a path that is written with slashes: the root, if it is absolute, and the
/// names between the slashes.
pub open spec fn slash_parts(t: Seq<char>) -> Seq<Seq<char>> {
    let names = named_pieces(text::pieces(t, '/'));
    if t.len() > 0 && t[0] == '/' {
        seq![seq!['/']] + names
    } else {
        names
    }
}

impl OsPath {
    /// A path that is written with slashes.
    pub fn from_slashes(t: &str) -> (p: OsPath)
        ensures
            p@.text == t@,
            p@.parts == slash_parts(t@),
    {
        let pieces = text::split(t, '/');
        let ghost all = text::texts(pieces@);
        let mut parts: Vec<String> = Vec::new();
        let absolute = t.unicode_len() > 0 && t.get_char(0) == '/';
        let ghost root: Seq<Seq<char>> = if absolute {
            seq![seq!['/']]
        } else {
            Seq::empty()
        };
        if absolute {
            let mut slash = String::new();
            slash.push('/');
            assert(slash@ =~= seq!['/']);
            parts.push(slash);
        }
        assert(text::texts(parts@) =~= root);
        let mut i: usize = 0;
        assert(all.take(0) =~= Seq::<Seq<char>>::empty());
        assert(root + named_pieces(all.take(0)) =~= root);
        while i < pieces.len()
            invariant
                i <= pieces@.len(),
                all == text::texts(pieces@),
                text::texts(parts@) == root + named_pieces(all.take(i as int)),
            decreases pieces@.len() - i,
        {
            proof {
                assert(all.take(i + 1).drop_last() =~= all.take(i as int));
                assert(all[i as int] == pieces@[i as int]@);
                assert(all.take(i + 1).last() == all[i as int]);
            }
            let piece = pieces[i].as_str();
            let n: usize = piece.unicode_len();
            let dot = n == 1 && piece.get_char(0) == '.';
            assert(dot == (piece@ == seq!['.'])) by {
                if dot {
                    assert(piece@ =~= seq!['.']);
                }
            }
            if n > 0 && (!dot || i == 0) {
                let ghost before = parts@;
                parts.push(pieces[i].clone());
                assert(text::texts(parts@) =~= text::texts(before).push(piece@));
                assert(root + named_pieces(all.take(i as int)).push(piece@) =~= (root + named_pieces(
                    all.take(i as int),
                )).push(piece@));
            }
            i = i + 1;
        }
        assert(all.take(all.len() as int) =~= all);
        OsPath { text: String::from_str(t), parts }
    }

    /// Whether this path leads to `name` directly under `dir`, or to something below that.
    pub fn is_under(&self, dir: &OsPath, name: &str) -> (r: bool)
        ensures
            r == dir@.parts.push(name@).is_prefix_of(self@.parts),
    {
        let n: usize = dir.parts.len();
        if self.parts.len() <= n {
            return false;
        }
        let ghost want = dir@.parts.push(name@);
        let mut i: usize = 0;
        while i < n
            invariant
                n == dir.parts@.len(),
                n < self.parts@.len(),
                want == dir@.parts.push(name@),
                i <= n,
                forall|j: int| 0 <= j < i ==> want[j] == #[trigger] self@.parts[j],
            decreases n - i,
        {
            assert(want[i as int] == dir.parts@[i as int]@);
            assert(self@.parts[i as int] == self.parts@[i as int]@);
            if !text::same(dir.parts[i].as_str(), self.parts[i].as_str()) {
                assert(self@.parts.subrange(0, want.len() as int)[i as int] == self@.parts[i as int]);
                return false;
            }
            i = i + 1;
        }
        let r = text::same(self.parts[n].as_str(), name);
        proof {
            assert(self@.parts[n as int] == self.parts@[n as int]@);
            assert(self@.parts.subrange(0, want.len() as int)[n as int] == self@.parts[n as int]);
            if r {
                assert(self@.parts.subrange(0, want.len() as int) =~= want);
            }
        }
        r
    }

    /// Whether two paths are made of the same components.
    pub fn same_place(&self, other: &OsPath) -> (r: bool)
        ensures
            r == (self@.parts == other@.parts),
    {
        if self.parts.len() != other.parts.len() {
            assert(self@.parts.len() != other@.parts.len());
            return false;
        }
        let mut i: usize = 0;
        while i < self.parts.len()
            invariant
                i <= self.parts@.len() == other.parts@.len(),
                forall|j: int| 0 <= j < i ==> self@.parts[j] == other@.parts[j],
            decreases self.parts@.len() - i,
        {
            assert(self@.parts[i as int] == self.parts@[i as int]@);
            assert(other@.parts[i as int] == other.parts@[i as int]@);
            if !text::same(self.parts[i].as_str(), other.parts[i].as_str()) {
                return false;
            }
            i = i + 1;
        }
        assert(self@.parts =~= other@.parts);
        true
    }
}

impl Clone for OsPath {
    fn clone(&self) -> (r: OsPath)
        ensures
            r@ == self@,
    {
        OsPath { text: self.text.clone(), parts: text::copy_texts(&self.parts) }
    }
}

/// A path of Windows that is a drive and nothing else.
pub open spec fn bare_drive(dir: Seq<char>) -> bool {
    dir.len() == 2 && dir[1] == ':' && ('a' <= dir[0] <= 'z' || 'A' <= dir[0] <= 'Z')
}

/// A name put behind a directory, with a separator between them unless the directory is empty or
/// ends in one, or is a drive, behind which the name is relative to where that drive stands.
pub open spec fn joined_path(dir: Seq<char>, name: Seq<char>, platform: Platform) -> Seq<char> {
    if dir.len() == 0 {
        name
    } else if dir.last() == '/' || (platform == Platform::Windows && (dir.last() == '\\'
        || bare_drive(dir))) {
        dir + name
    } else if platform == Platform::Windows {
        dir + "\\"@ + name
    } else {
        dir + "/"@ + name
    }
}

/// Puts a relative name behind a directory.
pub fn join_path(dir: &str, name: &str, platform: Platform) -> (r: String)
    ensures
        r@ == joined_path(dir@, name@, platform),
{
    let n: usize = dir.unicode_len();
    if n == 0 {
        return String::from_str(name);
    }
    let last = dir.get_char(n - 1);
    let first = dir.get_char(0);
    let drive = n == 2 && last == ':' && (('a' <= first && first <= 'z') || ('A' <= first && first
        <= 'Z'));
    let mut r = String::from_str(dir);
    if last == '/' || (platform == Platform::Windows && (last == '\\' || drive)) {
    } else if platform == Platform::Windows {
        r.append("\\");
    } else {
        r.append("/");
    }
    r.append(name);
    r
}

/// The components of a path: the root where it begins with a slash, its first piece unless that is
/// empty, and of the others those that are neither empty nor a dot, in their order.
pub proof fn what_a_path_is_made_of(t: Seq<char>)
    ensures
        ({
            let pieces = text::pieces(t, '/');
            let root: Seq<Seq<char>> = if t.len() > 0 && t[0] == '/' {
                seq!["/"@]
            } else {
                Seq::empty()
            };
            let first: Seq<Seq<char>> = if pieces[0].len() > 0 {
                seq![pieces[0]]
            } else {
                Seq::empty()
            };
            slash_parts(t) == root + first + pieces.skip(1).filter(
                |p: Seq<char>| p.len() > 0 && p != "."@,
            )
        }),
{
    reveal_strlit("/");
    reveal_strlit(".");
    assert("/"@ =~= seq!['/']);
    text::pieces_nonempty(t, '/');
    let pieces = text::pieces(t, '/');
    named_pieces_are_filtered(pieces);
    let first: Seq<Seq<char>> = if pieces[0].len() > 0 {
        seq![pieces[0]]
    } else {
        Seq::empty()
    };
    let rest = pieces.skip(1).filter(|p: Seq<char>| p.len() > 0 && p != "."@);
    assert(seq!["/"@] + first + rest =~= seq![seq!['/']] + (first + rest));
    assert(Seq::<Seq<char>>::empty() + first + rest =~= first + rest);
}

proof fn named_pieces_are_filtered(pieces: Seq<Seq<char>>)
    requires
        pieces.len() > 0,
    ensures
        ({
            let first: Seq<Seq<char>> = if pieces[0].len() > 0 {
                seq![pieces[0]]
            } else {
                Seq::empty()
            };
            named_pieces(pieces) == first + pieces.skip(1).filter(
                |p: Seq<char>| p.len() > 0 && p != "."@,
            )
        }),
    decreases pieces.len(),
{
    reveal(Seq::filter);
    reveal_strlit(".");
    assert("."@ =~= seq!['.']);
    let pred = |p: Seq<char>| p.len() > 0 && p != "."@;
    let first: Seq<Seq<char>> = if pieces[0].len() > 0 {
        seq![pieces[0]]
    } else {
        Seq::empty()
    };
    let front = pieces.drop_last();
    if pieces.len() == 1 {
        assert(pieces.skip(1) =~= Seq::<Seq<char>>::empty());
        assert(pieces.skip(1).filter(pred) =~= Seq::<Seq<char>>::empty());
        assert(named_pieces(front) =~= Seq::<Seq<char>>::empty());
        assert(first + Seq::<Seq<char>>::empty() =~= first);
        assert(named_pieces(pieces) =~= first);
    } else {
        named_pieces_are_filtered(front);
        assert(front[0] == pieces[0]);
        assert(pieces.skip(1).drop_last() =~= front.skip(1));
        assert(pieces.skip(1).last() == pieces.last());
        let before = front.skip(1).filter(pred);
        if pred(pieces.last()) {
            assert((first + before).push(pieces.last()) =~= first + before.push(pieces.last()));
        }
    }
}

/// On systems with slashes, a name put behind a directory is one component more: that of the name.
pub proof fn a_joined_name_is_one_component_more(
    dir: Seq<char>,
    name: Seq<char>,
    platform: Platform,
)
    requires
        platform != Platform::Windows,
        dir.len() > 0,
        name.len() > 0,
        name != "."@,
        !name.contains('/'),
    ensures
        slash_parts(joined_path(dir, name, platform)) == slash_parts(dir).push(name),
{
    reveal_strlit("/");
    reveal_strlit(".");
    assert("."@ =~= seq!['.']);
    assert("/"@ =~= seq!['/']);
    let path = joined_path(dir, name, platform);
    let s = if dir.last() == '/' {
        dir.drop_last()
    } else {
        dir
    };
    assert(path =~= s + seq!['/'] + name);
    text::adding_a_last_piece(s, '/', name);
    text::pieces_nonempty(s, '/');
    let pieces = text::pieces(s, '/');
    assert(pieces.push(name).drop_last() =~= pieces);
    if dir.last() == '/' {
        assert(pieces.push(Seq::empty()).drop_last() =~= pieces);
        assert(named_pieces(text::pieces(dir, '/')) == named_pieces(pieces));
    }
    assert(path[0] == dir[0]);
    let names = named_pieces(pieces);
    assert(seq![seq!['/']] + names.push(name) =~= (seq![seq!['/']] + names).push(name));
}

/// A name stands behind its directory with one separator between them: none is added behind an empty
/// directory, behind one that ends in a separator already, or behind a drive of Windows.
pub proof fn how_a_name_is_joined(dir: Seq<char>, name: Seq<char>)
    ensures
        dir.len() == 0 ==> joined_path(dir, name, Platform::Windows) == name && joined_path(
            dir,
            name,
            Platform::Linux,
        ) == name,
        dir.len() > 0 && dir.last() == '/' ==> joined_path(dir, name, Platform::Windows) == dir
            + name,
        dir.len() > 0 && dir.last() == '\\' ==> joined_path(dir, name, Platform::Windows) == dir
            + name,
        dir.len() > 0 && dir.last() != '/' && dir.last() != '\\' && dir.last() != ':'
            ==> joined_path(dir, name, Platform::Windows) == dir + "\\"@ + name,
        dir.len() > 2 && dir.last() == ':' ==> joined_path(dir, name, Platform::Windows) == dir
            + "\\"@ + name,
        dir.len() == 2 && dir[1] == ':' && ('a' <= dir[0] <= 'z' || 'A' <= dir[0] <= 'Z')
            ==> joined_path(dir, name, Platform::Windows) == dir + name,
        joined_path(dir, name, Platform::Linux) == joined_path(dir, name, Platform::Mac),
{
}

} // verus!
