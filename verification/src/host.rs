//! The host's windows: the records of its window list, the windows that
//! they describe, and what an engine takes of them.

use vstd::prelude::*;
use crate::records::RectInstance;

verus! {

/// One window of the host, as the host describes it.
#[derive(Debug, Clone, PartialEq, Eq)]
pub struct AppWindow {
    /// The owning application's name, where the host gives it.
    pub owner_name: Option<String>,
    /// The window's title, where the host gives it.
    pub name: Option<String>,
    /// Left and top edge, as double-precision bit patterns.
    pub pos: [u64; 2],
    /// Width and height, as double-precision bit patterns.
    pub dim: [u64; 2],
    /// The layer that the window lies in; ordinary windows lie in layer 0.
    pub layer: i64,
    /// The number by which the host knows the window during a session.
    pub number: i64,
}

/// One record of the host's window list as it was read: any entry may be
/// missing from it.
#[derive(Debug, Clone, PartialEq, Eq)]
pub struct WindowRecord {
    pub owner_name: Option<String>,
    pub name: Option<String>,
    /// Left edge, top edge, width and height, as double-precision bit
    /// patterns.
    pub bounds: Option<[u64; 4]>,
    pub layer: Option<i64>,
    pub number: Option<i64>,
}

/// A window of the host on one display.
#[derive(Debug, Clone, PartialEq, Eq)]
pub struct PlacedWindow {
    pub window: AppWindow,
    /// Position and size of the window in units of the display's size.
    pub rect: RectInstance,
}

/// A copy of `s`, where there is one.
fn duplicate_name(s: &Option<String>) -> (copy: Option<String>)
    ensures
        copy == *s,
{
    match s {
        Some(s) => Some(s.clone()),
        None => None,
    }
}

impl WindowRecord {
    /// The window that the record describes: bounds, layer and number are
    /// needed, the two names are taken as they come.
    pub open spec fn decoded(&self) -> Option<AppWindow> {
        if self.bounds.is_some() && self.layer.is_some() && self.number.is_some() {
            Some(
                AppWindow {
                    owner_name: self.owner_name,
                    name: self.name,
                    pos: [self.bounds.unwrap()[0], self.bounds.unwrap()[1]],
                    dim: [self.bounds.unwrap()[2], self.bounds.unwrap()[3]],
                    layer: self.layer.unwrap(),
                    number: self.number.unwrap(),
                },
            )
        } else {
            None
        }
    }

    /// The window that the record describes, or `None` where the record
    /// lacks its bounds, its layer or its number.
    pub fn decode(&self) -> (window: Option<AppWindow>)
        ensures
            window == self.decoded(),
    {
        match (&self.bounds, &self.layer, &self.number) {
            (Some(bounds), Some(layer), Some(number)) => Some(
                AppWindow {
                    owner_name: duplicate_name(&self.owner_name),
                    name: duplicate_name(&self.name),
                    pos: [bounds[0], bounds[1]],
                    dim: [bounds[2], bounds[3]],
                    layer: *layer,
                    number: *number,
                },
            ),
            _ => None,
        }
    }
}

/// The windows that `records` describe, in the records' order. A record
/// that could not be read (`None`) or that lacks an entry is left out.
pub open spec fn snapshot(records: Seq<Option<WindowRecord>>) -> Seq<AppWindow>
    decreases records.len(),
{
    if records.len() == 0 {
        Seq::empty()
    } else {
        match records.last() {
            Some(r) if r.decoded().is_some() => snapshot(records.drop_last()).push(
                r.decoded().unwrap(),
            ),
            _ => snapshot(records.drop_last()),
        }
    }
}

/// The places in `records` of the records that `snapshot` leaves out, in
/// rising order.
pub open spec fn unread(records: Seq<Option<WindowRecord>>) -> Seq<usize>
    decreases records.len(),
{
    if records.len() == 0 {
        Seq::empty()
    } else {
        match records.last() {
            Some(r) if r.decoded().is_some() => unread(records.drop_last()),
            _ => unread(records.drop_last()).push((records.len() - 1) as usize),
        }
    }
}

/// Every record is either decoded or named as unread, and never both.
pub proof fn law_snapshot_skips(records: Seq<Option<WindowRecord>>)
    ensures
        snapshot(records).len() + unread(records).len() == records.len(),
        (forall|i: int|
            0 <= i < records.len() ==> (#[trigger] records[i] matches Some(r)
                && r.decoded().is_some())) ==> snapshot(records).len() == records.len(),
    decreases records.len(),
{
    if records.len() > 0 {
        let head = records.drop_last();
        law_snapshot_skips(head);
        if forall|i: int|
            0 <= i < records.len() ==> (#[trigger] records[i] matches Some(r)
                && r.decoded().is_some()) {
            assert forall|i: int| 0 <= i < head.len() implies (#[trigger] head[i] matches Some(r)
                && r.decoded().is_some()) by {
                assert(head[i] == records[i]);
            }
            assert(records[records.len() - 1] matches Some(r) && r.decoded().is_some());
        }
    }
}

/// The windows of one answer of the host, in the host's order, and the
/// places of the records that were skipped: those that could not be read or
/// that lack an entry. A skipped record touches no other.
pub fn get_windows(records: &Vec<Option<WindowRecord>>) -> (found: (Vec<AppWindow>, Vec<usize>))
    ensures
        found.0@ == snapshot(records@),
        found.1@ == unread(records@),
{
    let mut windows: Vec<AppWindow> = Vec::new();
    let mut skipped: Vec<usize> = Vec::new();
    let mut i: usize = 0;
    while i < records.len()
        invariant
            i <= records@.len(),
            windows@ == snapshot(records@.take(i as int)),
            skipped@ == unread(records@.take(i as int)),
        decreases records@.len() - i,
    {
        proof {
            let next = records@.take(i + 1);
            assert(next.drop_last() =~= records@.take(i as int));
            assert(next.last() == records@[i as int]);
        }
        let window = match &records[i] {
            Some(r) => r.decode(),
            None => None,
        };
        match window {
            Some(w) => {
                windows.push(w);
            },
            None => {
                skipped.push(i);
            },
        }
        i += 1;
    }
    assert(records@.take(records@.len() as int) =~= records@);
    (windows, skipped)
}

/// A copy of `w`.
pub(crate) fn duplicate(w: &AppWindow) -> (copy: AppWindow)
    ensures
        copy == *w,
{
    let owner_name = match &w.owner_name {
        Some(s) => Some(s.clone()),
        None => None,
    };
    let name = match &w.name {
        Some(s) => Some(s.clone()),
        None => None,
    };
    AppWindow {
        owner_name,
        name,
        pos: w.pos,
        dim: w.dim,
        layer: w.layer,
        number: w.number,
    }
}

/// The rectangles of the windows in layer 0, in the order of `ws`.
pub open spec fn base_rects(ws: Seq<PlacedWindow>) -> Seq<RectInstance>
    decreases ws.len(),
{
    if ws.len() == 0 {
        Seq::empty()
    } else if ws.last().window.layer == 0 {
        base_rects(ws.drop_last()).push(ws.last().rect)
    } else {
        base_rects(ws.drop_last())
    }
}

/// The windows in layer 0 by number; of two with one number the later stays.
pub open spec fn base_map(ws: Seq<PlacedWindow>) -> Map<i64, AppWindow>
    decreases ws.len(),
{
    if ws.len() == 0 {
        Map::empty()
    } else if ws.last().window.layer == 0 {
        base_map(ws.drop_last()).insert(ws.last().window.number, ws.last().window)
    } else {
        base_map(ws.drop_last())
    }
}

/// The rectangles of a snapshot are those of its windows in layer 0, in the
/// snapshot's order: no more than there are windows, and all of them where
/// every window lies in layer 0.
pub proof fn law_base_rects(ws: Seq<PlacedWindow>)
    ensures
        base_rects(ws).len() <= ws.len(),
        (forall|i: int| 0 <= i < ws.len() ==> (#[trigger] ws[i]).window.layer == 0) ==> base_rects(ws)
            == ws.map_values(|w: PlacedWindow| w.rect),
        forall|n: i64| #[trigger]
            base_map(ws).contains_key(n) <==> exists|i: int|
                0 <= i < ws.len() && (#[trigger] ws[i]).window.layer == 0 && ws[i].window.number == n,
    decreases ws.len(),
{
    if ws.len() > 0 {
        let head = ws.drop_last();
        law_base_rects(head);
        if forall|i: int| 0 <= i < ws.len() ==> (#[trigger] ws[i]).window.layer == 0 {
            assert forall|i: int| 0 <= i < head.len() implies (#[trigger] head[i]).window.layer == 0 by {
                assert(head[i] == ws[i]);
            }
            assert(ws.last() == ws[ws.len() - 1]);
            assert(base_rects(ws) =~= ws.map_values(|w: PlacedWindow| w.rect));
        }
        assert forall|n: i64| #[trigger]
            base_map(ws).contains_key(n) <==> exists|i: int|
                0 <= i < ws.len() && (#[trigger] ws[i]).window.layer == 0 && ws[i].window.number == n by {
            if base_map(ws).contains_key(n) {
                if base_map(head).contains_key(n) {
                    let i = choose|i: int|
                        0 <= i < head.len() && (#[trigger] head[i]).window.layer == 0
                            && head[i].window.number == n;
                    assert(ws[i] == head[i]);
                } else {
                    assert(ws[ws.len() - 1].window.layer == 0 && ws[ws.len() - 1].window.number == n);
                }
            }
            if exists|i: int|
                0 <= i < ws.len() && (#[trigger] ws[i]).window.layer == 0 && ws[i].window.number == n {
                let i = choose|i: int|
                    0 <= i < ws.len() && (#[trigger] ws[i]).window.layer == 0 && ws[i].window.number == n;
                if i < head.len() {
                    assert(head[i] == ws[i]);
                    assert(base_map(head).contains_key(n));
                }
            }
        }
    }
}

} // verus!
