//! Helpers the list screens share: cursor movement, the scroll offset that
//! keeps the cursor in view, and the small bar and age texts.
use vstd::prelude::*;
use crate::lora_screen::sat_sub;
use crate::text::{concat, dec_text, decimal, push_char};
use crate::ui::Key;

verus! {

/// The first visible row of a window of `visible` rows over `total`
/// items that keeps the cursor (clamped to the list) in view: 0 while the
/// list fits or the cursor is on the first page, else the row that puts
/// the cursor on the window's last line.
pub open spec fn spec_offset(selected: usize, total: usize, visible: usize) -> int {
    if total <= visible || visible == 0 {
        0
    } else {
        let sel = if selected < total - 1 {
            selected as int
        } else {
            total - 1
        };
        if sel >= visible {
            sel - visible + 1
        } else {
            0
        }
    }
}

/// The scroll offset of a list window (see `spec_offset`); the cursor's
/// row is always inside the window.
pub fn compute_offset(selected: usize, total: usize, visible: usize) -> (r: usize)
    ensures
        r == spec_offset(selected, total, visible),
        total > visible > 0 ==> ({
            let sel = if selected < total - 1 {
                selected as int
            } else {
                total - 1
            };
            r <= sel < r + visible && r + visible <= total
        }),
{
    if total <= visible || visible == 0 {
        return 0;
    }
    let sel = if selected < total - 1 {
        selected
    } else {
        total - 1
    };
    if sel >= visible {
        sel - visible + 1
    } else {
        0
    }
}

/// Where a list cursor goes on a key, for a list of `total` items paged
/// by `page`: `j`/Down and `k`/Up step by one, PageDown/Space and PageUp
/// by a page, Home/`g` and End/`G` jump to the ends; the cursor stays
/// within the list when it moves down and stops at 0 moving up. `None`
/// for any other key.
pub open spec fn nav_target(selected: usize, total: usize, key: Key, page: usize) -> Option<usize> {
    let last = (total - 1) as usize;
    if key == Key::Char('j') || key == Key::Down {
        Some(
            if total == 0 {
                selected
            } else if selected + 1 < total - 1 {
                (selected + 1) as usize
            } else {
                last
            },
        )
    } else if key == Key::Char('k') || key == Key::Up {
        Some(sat_sub(selected, 1))
    } else if key == Key::PageDown || key == Key::Char(' ') {
        Some(
            if total == 0 {
                selected
            } else if selected + page < total - 1 {
                (selected + page) as usize
            } else {
                last
            },
        )
    } else if key == Key::PageUp {
        Some(sat_sub(selected, page))
    } else if key == Key::Home || key == Key::Char('g') {
        Some(0)
    } else if key == Key::End || key == Key::Char('G') {
        Some(
            if total == 0 {
                selected
            } else {
                last
            },
        )
    } else {
        None
    }
}

/// Whether moving the cursor down from `selected` stays within `usize`.
pub open spec fn nav_fits(selected: usize, total: usize, key: Key, page: usize) -> bool {
    &&& (total > 0 && (key == Key::Char('j') || key == Key::Down)) ==> selected < usize::MAX
    &&& (total > 0 && (key == Key::PageDown || key == Key::Char(' '))) ==> selected + page
        <= usize::MAX
}

/// Move a list cursor (see `nav_target`).
pub fn list_nav(selected: usize, total: usize, key: Key, page: usize) -> (r: Option<usize>)
    requires
        nav_fits(selected, total, key, page),
    ensures
        r == nav_target(selected, total, key, page),
{
    if key == Key::Char('j') || key == Key::Down {
        Some(
            if total == 0 {
                selected
            } else if selected + 1 < total - 1 {
                selected + 1
            } else {
                total - 1
            },
        )
    } else if key == Key::Char('k') || key == Key::Up {
        Some(selected.saturating_sub(1))
    } else if key == Key::PageDown || key == Key::Char(' ') {
        Some(
            if total == 0 {
                selected
            } else if selected + page < total - 1 {
                selected + page
            } else {
                total - 1
            },
        )
    } else if key == Key::PageUp {
        Some(selected.saturating_sub(page))
    } else if key == Key::Home || key == Key::Char('g') {
        Some(0)
    } else if key == Key::End || key == Key::Char('G') {
        Some(
            if total == 0 {
                selected
            } else {
                total - 1
            },
        )
    } else {
        None
    }
}

/// The cursor kept on a non-empty list: the last item when past its end.
pub open spec fn clamped(selected: usize, len: usize) -> int {
    if selected < len - 1 {
        selected as int
    } else {
        len - 1
    }
}

/// The item a list cursor designates: none for an empty list, else the
/// cursor clamped to the last item.
pub fn selected_index(selected: usize, len: usize) -> (r: Option<usize>)
    ensures
        len == 0 ==> r is None,
        len > 0 ==> r == Some(clamped(selected, len) as usize),
{
    if len == 0 {
        None
    } else if selected < len - 1 {
        Some(selected)
    } else {
        Some(len - 1)
    }
}

/// A bar of `filled` full blocks followed by `empty` light shades.
pub open spec fn bar_text(filled: nat, empty: nat) -> Seq<char> {
    Seq::new(filled, |i: int| '█') + Seq::new(empty, |i: int| '░')
}

pub(crate) fn bar(filled: usize, empty: usize) -> (r: String)
    ensures
        r@ == bar_text(filled as nat, empty as nat),
{
    let mut r = String::new();
    for i in 0..filled
        invariant
            r@ == Seq::new(i as nat, |k: int| '█'),
    {
        push_char(&mut r, '█');
        assert(r@ =~= Seq::new((i + 1) as nat, |k: int| '█'));
    }
    let ghost head = r@;
    for i in 0..empty
        invariant
            head == Seq::new(filled as nat, |k: int| '█'),
            r@ == head + Seq::new(i as nat, |k: int| '░'),
    {
        push_char(&mut r, '░');
        assert(r@ =~= head + Seq::new((i + 1) as nat, |k: int| '░'));
    }
    r
}

/// Volume bar: one block per 5%, at most 20 (loud volumes fill it).
pub fn vol_bar(pct: u8) -> (r: String)
    ensures
        ({
            let f = if pct / 5 < 20 {
                pct / 5
            } else {
                20
            };
            r@ == bar_text(f as nat, (20 - f) as nat)
        }),
{
    let f0 = (pct as usize) / 5;
    let filled = if f0 < 20 {
        f0
    } else {
        20
    };
    bar(filled, 20 - filled)
}

/// Brightness bar: one block per 5% of 20. Percentages whose twentieth
/// passes 20 (above 104%) are left out.
pub fn brightness_bar(pct: u8) -> (r: String)
    requires
        pct / 5 <= 20,
    ensures
        r@ == bar_text((pct / 5) as nat, (20 - pct / 5) as nat),
{
    let filled = (pct as usize) / 5;
    bar(filled, 20 - filled)
}

/// Battery bar: one block per 10% of 10. Capacities whose tenth passes 10
/// (above 109%) are left out.
pub fn battery_bar(cap: u8) -> (r: String)
    requires
        cap / 10 <= 10,
    ensures
        r@ == bar_text((cap / 10) as nat, (10 - cap / 10) as nat),
{
    let filled = (cap as usize) / 10;
    bar(filled, 10 - filled)
}

/// `yes` or `no`.
pub fn bool_label(b: bool) -> (r: &'static str)
    ensures
        r@ == if b {
            "yes"@
        } else {
            "no"@
        },
{
    if b {
        "yes"
    } else {
        "no"
    }
}

/// How long ago something happened, `dt` seconds back: `in the future`
/// for a negative age, then seconds, minutes and hours, and `>1d` from a
/// day on.
pub open spec fn ago_text(dt: i64) -> Seq<char> {
    if dt < 0 {
        "in the future"@
    } else if dt < 60 {
        dec_text(dt as nat) + "s ago"@
    } else if dt < 3600 {
        dec_text((dt / 60) as nat) + "m ago"@
    } else if dt < 86_400 {
        dec_text((dt / 3600) as nat) + "h ago"@
    } else {
        ">1d"@
    }
}

/// The age text for `dt` seconds (see `ago_text`).
pub fn format_age(dt: i64) -> (r: String)
    ensures
        r@ == ago_text(dt),
{
    if dt < 0 {
        "in the future".to_owned()
    } else if dt < 60 {
        let n = decimal(dt as u64);
        concat(n.as_str(), "s ago")
    } else if dt < 3600 {
        let n = decimal((dt / 60) as u64);
        concat(n.as_str(), "m ago")
    } else if dt < 86_400 {
        let n = decimal((dt / 3600) as u64);
        concat(n.as_str(), "h ago")
    } else {
        ">1d".to_owned()
    }
}

/// A list key never moves the cursor off a non-empty list.
pub proof fn lemma_nav_stays_in_list(selected: usize, total: usize, key: Key, page: usize)
    requires
        0 < total,
        selected < total,
    ensures
        nav_target(selected, total, key, page) matches Some(s) ==> s < total,
{
}

/// Up after Down goes back to where the cursor was, unless Down was
/// already on the last item.
pub proof fn lemma_down_up_undo(selected: usize, total: usize, page: usize)
    requires
        selected + 1 < total,
    ensures
        nav_target(selected, total, Key::Down, page) matches Some(s) && nav_target(s, total, Key::Up, page)
            == Some(selected),
{
}

} // verus!
