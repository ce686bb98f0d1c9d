//! The file browsers: how a directory listing is filtered and ordered,
//! and what the keys and D-pad events do with the cursor and the
//! directory shown.
use vstd::prelude::*;
use crate::lines::{name_le, sort_by_name, DirEntry};
use crate::lists::{list_nav, nav_fits, nav_target};

use crate::nav_screens::{down_fits, list_event, NavRequest};
use crate::ui::{Consumed, Key, NavEvent};

verus! {

/// A hidden name starts with a dot.
pub open spec fn is_hidden(name: Seq<char>) -> bool {
    name.len() > 0 && name[0] == '.'
}

/// Whether a listing shows the entry.
pub open spec fn shown(e: DirEntry, show_hidden: bool) -> bool {
    show_hidden || !is_hidden(e.name@)
}

/// The entries of `s` a listing shows, in order.
pub open spec fn kept(s: Seq<DirEntry>, show_hidden: bool) -> Seq<DirEntry>
    decreases s.len(),
{
    if s.len() == 0 {
        Seq::empty()
    } else {
        let p = kept(s.drop_last(), show_hidden);
        if shown(s.last(), show_hidden) {
            p.push(s.last())
        } else {
            p
        }
    }
}

/// Listing order: directories before files, each in name order.
pub open spec fn listing_order(s: Seq<DirEntry>) -> bool {
    forall|i: int, j: int|
        0 <= i < j < s.len() ==> {
            ||| (#[trigger] s[i]).is_dir && !(#[trigger] s[j]).is_dir
            ||| s[i].is_dir == s[j].is_dir && name_le(s[i].name@, s[j].name@)
        }
}

fn name_is_hidden(name: &str) -> (r: bool)
    ensures
        r == is_hidden(name@),
{
    let cs = crate::text::chars_of(name);
    cs.len() > 0 && cs[0] == '.'
}

/// A directory's entries as the browser lists them: hidden names left out
/// unless `show_hidden`, directories first, each group in name order.
pub fn arrange_listing(raw: Vec<DirEntry>, show_hidden: bool) -> (r: Vec<DirEntry>)
    ensures
        r@.to_multiset() == kept(raw@, show_hidden).to_multiset(),
        listing_order(r@),
{
    broadcast use vstd::seq_lib::group_to_multiset_ensures;
    broadcast use vstd::multiset::group_multiset_axioms;

    let ghost whole = raw@;
    let mut rest = raw;
    let mut dirs: Vec<DirEntry> = Vec::new();
    let mut files: Vec<DirEntry> = Vec::new();
    proof {
        assert(dirs@.to_multiset().add(files@.to_multiset()).add(
            kept(rest@, show_hidden).to_multiset(),
        ) =~= kept(whole, show_hidden).to_multiset());
    }
    while rest.len() > 0
        invariant
            dirs@.to_multiset().add(files@.to_multiset()).add(
                kept(rest@, show_hidden).to_multiset(),
            ) == kept(whole, show_hidden).to_multiset(),
            forall|k: int| 0 <= k < dirs@.len() ==> (#[trigger] dirs@[k]).is_dir,
            forall|k: int| 0 <= k < files@.len() ==> !(#[trigger] files@[k]).is_dir,
        decreases rest@.len(),
    {
        let ghost before = rest@;
        let x = rest.pop().unwrap();
        proof {
            assert(before.drop_last() =~= rest@);
            assert(before.last() == x);
        }
        let keep = show_hidden || !name_is_hidden(x.name.as_str());
        if keep {
            if x.is_dir {
                let ghost d0 = dirs@;
                dirs.push(x);
                proof {
                    vstd::seq_lib::to_multiset_build(d0, x);
                    vstd::seq_lib::to_multiset_build(kept(rest@, show_hidden), x);
                    assert(dirs@.to_multiset().add(files@.to_multiset()).add(
                        kept(rest@, show_hidden).to_multiset(),
                    ) =~= d0.to_multiset().add(files@.to_multiset()).add(
                        kept(before, show_hidden).to_multiset(),
                    ));
                }
            } else {
                let ghost f0 = files@;
                files.push(x);
                proof {
                    vstd::seq_lib::to_multiset_build(f0, x);
                    vstd::seq_lib::to_multiset_build(kept(rest@, show_hidden), x);
                    assert(dirs@.to_multiset().add(files@.to_multiset()).add(
                        kept(rest@, show_hidden).to_multiset(),
                    ) =~= dirs@.to_multiset().add(f0.to_multiset()).add(
                        kept(before, show_hidden).to_multiset(),
                    ));
                }
            }
        }
    }
    proof {
        assert(kept(rest@, show_hidden) =~= Seq::<DirEntry>::empty());
    }
    let ghost d_in = dirs@;
    let ghost f_in = files@;
    let mut d = sort_by_name(dirs);
    let mut f = sort_by_name(files);
    proof {
        assert forall|k: int| 0 <= k < d@.len() implies (#[trigger] d@[k]).is_dir by {
            assert(d@.to_multiset().count(d@[k]) > 0);
            assert(d_in.contains(d@[k]));
        }
        assert forall|k: int| 0 <= k < f@.len() implies !(#[trigger] f@[k]).is_dir by {
            assert(f@.to_multiset().count(f@[k]) > 0);
            assert(f_in.contains(f@[k]));
        }
    }
    let ghost ds = d@;
    let ghost fs = f@;
    d.append(&mut f);
    proof {
        vstd::seq_lib::lemma_multiset_commutative(ds, fs);
        assert(d@ == ds + fs);
        assert forall|i: int, j: int| 0 <= i < j < d@.len() implies {
            ||| (#[trigger] d@[i]).is_dir && !(#[trigger] d@[j]).is_dir
            ||| d@[i].is_dir == d@[j].is_dir && name_le(d@[i].name@, d@[j].name@)
        } by {
            if j < ds.len() {
                assert(d@[i] == ds[i] && d@[j] == ds[j]);
            } else if i >= ds.len() {
                assert(d@[i] == fs[i - ds.len()] && d@[j] == fs[j - ds.len()]);
            } else {
                assert(d@[i] == ds[i] && d@[j] == fs[j - ds.len()]);
            }
        }
    }
    d
}

// ─── Two-pane browser ───────────────────────────────────────────────────

/// What a browser key asks for besides moving the cursor.
pub enum FilesAction {
    Stay,
    /// List the parent of the current directory.
    ParentDir,
    /// Make the entry at this path the current directory and list it.
    OpenDir(String),
    /// Show the entry at this path in the right pane.
    Peek(String),
    /// Open the peeked file in the editor.
    OpenEditor,
    /// Show a status message.
    Status(String),
}

/// The two-pane browser.
pub struct FilesScreen;

impl FilesScreen {
    /// List keys (page 10) move the cursor; `h`/Left goes to the parent
    /// directory when there is one (cursor back to the top); `l`/Right/Enter
    /// on the entry under the cursor opens a directory (cursor back to the
    /// top) or peeks at a file; `e` opens the peeked path in the editor when
    /// it is a regular file, else says it is not.
    pub fn on_key(
        &self,
        selected: &mut usize,
        entries: &Vec<DirEntry>,
        has_parent: bool,
        peek_is_file: bool,
        key: Key,
    ) -> (r: (bool, FilesAction))
        requires
            nav_fits(*old(selected), entries@.len() as usize, key, 10),
        ensures
            match nav_target(*old(selected), entries@.len() as usize, key, 10) {
                Some(t) => *final(selected) == t && r.0 && r.1 is Stay,
                None => {
                    &&& (key == Key::Char('h') || key == Key::Left) ==> r.0 && if has_parent {
                        *final(selected) == 0 && r.1 is ParentDir
                    } else {
                        *final(selected) == *old(selected) && r.1 is Stay
                    }
                    &&& (key == Key::Char('l') || key == Key::Right || key == Key::Enter) ==> r.0
                        && if *old(selected) < entries@.len() {
                        let e = entries@[*old(selected) as int];
                        if e.is_dir {
                            *final(selected) == 0 && (r.1 matches FilesAction::OpenDir(p) && p@
                                == e.path@)
                        } else {
                            *final(selected) == *old(selected) && (r.1 matches FilesAction::Peek(p)
                                && p@ == e.path@)
                        }
                    } else {
                        *final(selected) == *old(selected) && r.1 is Stay
                    }
                    &&& key == Key::Char('e') ==> r.0 && *final(selected) == *old(selected) && if peek_is_file {
                        r.1 is OpenEditor
                    } else {
                        r.1 matches FilesAction::Status(m) && m@ == "editor: not a regular file"@
                    }
                    &&& !(key == Key::Char('h') || key == Key::Left || key == Key::Char('l') || key
                        == Key::Right || key == Key::Enter || key == Key::Char('e')) ==> !r.0
                        && r.1 is Stay && *final(selected) == *old(selected)
                },
            },
    {
        match list_nav(*selected, entries.len(), key, 10) {
            Some(t) => {
                *selected = t;
                return (true, FilesAction::Stay);
            },
            None => {},
        }
        if key == Key::Char('h') || key == Key::Left {
            if has_parent {
                *selected = 0;
                (true, FilesAction::ParentDir)
            } else {
                (true, FilesAction::Stay)
            }
        } else if key == Key::Char('l') || key == Key::Right || key == Key::Enter {
            if *selected < entries.len() {
                let e = &entries[*selected];
                if e.is_dir {
                    *selected = 0;
                    (true, FilesAction::OpenDir(e.path.clone()))
                } else {
                    (true, FilesAction::Peek(e.path.clone()))
                }
            } else {
                (true, FilesAction::Stay)
            }
        } else if key == Key::Char('e') {
            if peek_is_file {
                (true, FilesAction::OpenEditor)
            } else {
                (true, FilesAction::Status("editor: not a regular file".to_owned()))
            }
        } else {
            (false, FilesAction::Stay)
        }
    }
}

/// The cursor kept on a list of `len` entries: 0 for an empty list, the
/// last entry when past the end.
pub open spec fn clamp_cursor(selected: usize, len: usize) -> usize {
    if len == 0 {
        0
    } else if selected >= len {
        (len - 1) as usize
    } else {
        selected
    }
}

/// List the current directory again from its raw entries (see
/// `arrange_listing`) and keep the cursor on the list.
pub fn refresh(selected: &mut usize, raw: Vec<DirEntry>, show_hidden: bool) -> (r: Vec<DirEntry>)
    ensures
        r@.to_multiset() == kept(raw@, show_hidden).to_multiset(),
        listing_order(r@),
        *final(selected) == clamp_cursor(*old(selected), r@.len() as usize),
{
    let r = arrange_listing(raw, show_hidden);
    if r.len() == 0 {
        *selected = 0;
    } else if *selected >= r.len() {
        *selected = r.len() - 1;
    }
    r
}

/// List the peeked directory from its raw entries (see `arrange_listing`).
pub fn refresh_right(raw: Vec<DirEntry>, show_hidden: bool) -> (r: Vec<DirEntry>)
    ensures
        r@.to_multiset() == kept(raw@, show_hidden).to_multiset(),
        listing_order(r@),
{
    arrange_listing(raw, show_hidden)
}

// ─── D-pad browser ──────────────────────────────────────────────────────

/// The D-pad browser: the directory shown, its rows (name and whether it
/// is a directory), the cursor, and whether the rows were read.
pub struct FilesScreenV2 {
    pub cwd: String,
    pub entries: Vec<(String, bool)>,
    pub selected: usize,
    pub loaded: bool,
}

/// The rows of a listing: `..` first when the directory has a parent,
/// then the entries (all of them, hidden ones too) in listing order.
pub open spec fn rows_match(rows: Seq<(String, bool)>, has_parent: bool, listing: Seq<DirEntry>) -> bool {
    let off: int = if has_parent {
        1
    } else {
        0
    };
    &&& rows.len() == off + listing.len()
    &&& has_parent ==> rows[0].0@ == ".."@ && rows[0].1
    &&& forall|i: int|
        0 <= i < listing.len() ==> (#[trigger] rows[off + i]).0@ == listing[i].name@ && rows[off
            + i].1 == listing[i].is_dir
}

/// What entering the row under the (clamped) cursor asks for: a
/// directory row moves into it (`..` to the parent); a file row, or no
/// row, does nothing.
pub open spec fn enter_request(rows: Seq<(String, bool)>, selected: usize, r: NavRequest) -> bool {
    if rows.len() == 0 {
        r is Stay
    } else {
        let e = rows[crate::lists::clamped(selected, rows.len() as usize)];
        if !e.1 {
            r is Stay
        } else if e.0@ == ".."@ {
            r is ParentDir
        } else {
            r matches NavRequest::OpenDir(n) && n@ == e.0@
        }
    }
}

impl FilesScreenV2 {
    /// Start in `home`, nothing read yet.
    pub fn new(home: &str) -> (s: Self)
        ensures
            s.cwd@ == home@,
            s.entries@.len() == 0,
            s.selected == 0,
            !s.loaded,
    {
        FilesScreenV2 { cwd: home.to_owned(), entries: Vec::new(), selected: 0, loaded: false }
    }

    /// Take in the raw entries of the current directory (none when it
    /// could not be read): rows as `rows_match` says, over an arrangement
    /// of all of them in listing order; the cursor back to the top.
    pub fn load_entries(&mut self, has_parent: bool, raw: Vec<DirEntry>)
        ensures
            final(self).cwd == old(self).cwd,
            final(self).selected == 0,
            final(self).loaded,
            exists|listing: Seq<DirEntry>|
                listing.to_multiset() == kept(raw@, true).to_multiset() && listing_order(listing)
                    && rows_match(final(self).entries@, has_parent, listing),
    {
        let listing = arrange_listing(raw, true);
        let mut rows: Vec<(String, bool)> = Vec::new();
        if has_parent {
            rows.push(("..".to_owned(), true));
        }
        let off = rows.len();
        let mut i: usize = 0;
        while i < listing.len()
            invariant
                off == (if has_parent {
                    1usize
                } else {
                    0usize
                }),
                i <= listing@.len(),
                rows@.len() == off + i,
                has_parent ==> rows@[0].0@ == ".."@ && rows@[0].1,
                forall|k: int|
                    0 <= k < i ==> (#[trigger] rows@[off + k]).0@ == listing@[k].name@ && rows@[off
                        + k].1 == listing@[k].is_dir,
            decreases listing@.len() - i,
        {
            rows.push((listing[i].name.clone(), listing[i].is_dir));
            i += 1;
        }
        self.entries = rows;
        self.selected = 0;
        self.loaded = true;
    }

    /// What Confirm does with the row under the (clamped) cursor (see
    /// `enter_request`).
    pub fn enter_selected(&self) -> (r: NavRequest)
        ensures
            enter_request(self.entries@, self.selected, r),
    {
        let n = self.entries.len();
        if n == 0 {
            return NavRequest::Stay;
        }
        let sel = if self.selected < n - 1 {
            self.selected
        } else {
            n - 1
        };
        let (name, is_dir) = (&self.entries[sel].0, self.entries[sel].1);
        if !is_dir {
            NavRequest::Stay
        } else if crate::text::same_str(name.as_str(), "..") {
            NavRequest::ParentDir
        } else {
            NavRequest::OpenDir(name.clone())
        }
    }

    /// Up and Down move over the rows; Confirm enters the row under the
    /// cursor (see `enter_selected`); Back goes to the parent directory when
    /// there is one, else back to the previous screen.
    pub fn on_nav(&mut self, ev: NavEvent, has_parent: bool) -> (r: (Consumed, NavRequest))
        requires
            down_fits(old(self).selected, ev),
        ensures
            final(self).cwd == old(self).cwd,
            final(self).entries == old(self).entries,
            final(self).loaded == old(self).loaded,
            ev is Confirm ==> r.0 == Consumed::Yes && final(self).selected == old(self).selected
                && enter_request(old(self).entries@, old(self).selected, r.1),
            ev is Back ==> r.0 == Consumed::Yes && final(self).selected == old(self).selected && if has_parent {
                r.1 is ParentDir
            } else {
                r.1 is GoBack
            },
            !(ev is Confirm || ev is Back) ==> ({
                let (s, c, _back) = list_event(old(self).selected, old(self).entries@.len() as usize, ev);
                &&& final(self).selected == s
                &&& r.0 == c
                &&& r.1 is Stay
            }),
    {
        match ev {
            NavEvent::Up => {
                self.selected = self.selected.saturating_sub(1);
                (Consumed::Yes, NavRequest::Stay)
            },
            NavEvent::Down => {
                let count = self.entries.len();
                if count > 0 {
                    self.selected = if self.selected + 1 < count - 1 {
                        self.selected + 1
                    } else {
                        count - 1
                    };
                    (Consumed::Yes, NavRequest::Stay)
                } else {
                    (Consumed::No, NavRequest::Stay)
                }
            },
            NavEvent::Confirm => (Consumed::Yes, self.enter_selected()),
            NavEvent::Back => if has_parent {
                (Consumed::Yes, NavRequest::ParentDir)
            } else {
                (Consumed::Yes, NavRequest::GoBack)
            },
            _ => (Consumed::No, NavRequest::Stay),
        }
    }
}

} // verus!
