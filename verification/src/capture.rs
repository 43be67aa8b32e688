//! The active press-capture table: the binding of each (device, button)
//! pair to the widget that captured the press, established when a button
//! goes down and dissolved when it comes up. Captures make drag and
//! release delivery independent of where the cursor currently hovers.
//!
//! The table is a flat association list with pairwise-distinct keys; its
//! mathematical view is the finite map from (device, button) to widget.

use vstd::prelude::*;

verus! {

/// A button on a pointing device.
#[derive(Clone, Copy, Debug, PartialEq, Eq, Hash, Structural)]
pub enum MouseButton {
    Left,
    Right,
    Middle,
    Other(u16),
}

/// One active capture: this device's button is held by this widget.
#[derive(Clone, Copy, Debug)]
pub struct CaptureEntry {
    /// Identifier of the pointing device, as the host reports it.
    pub device: u64,
    /// The button that went down.
    pub button: MouseButton,
    /// The widget that consumed the press.
    pub widget: usize,
}

/// The key of an entry: the (device, button) pair it binds.
pub open spec fn entry_key(e: CaptureEntry) -> (u64, MouseButton) {
    (e.device, e.button)
}

/// The map an entry list denotes, later entries overriding earlier ones.
pub open spec fn entries_map(s: Seq<CaptureEntry>) -> Map<(u64, MouseButton), usize>
    decreases s.len(),
{
    if s.len() == 0 {
        Map::empty()
    } else {
        entries_map(s.drop_last()).insert(entry_key(s.last()), s.last().widget)
    }
}

/// The press-capture table of one window.
#[derive(Debug)]
pub struct CaptureMap {
    /// The active captures; keys are pairwise distinct.
    pub entries: Vec<CaptureEntry>,
}

impl View for CaptureMap {
    type V = Map<(u64, MouseButton), usize>;

    open spec fn view(&self) -> Map<(u64, MouseButton), usize> {
        entries_map(self.entries@)
    }
}

/// A key occurs in the denoted map exactly when some entry carries it.
pub proof fn lemma_entries_map_dom(s: Seq<CaptureEntry>)
    ensures
        forall|k: (u64, MouseButton)|
            #[trigger] entries_map(s).contains_key(k)
                <==> exists|j: int| 0 <= j < s.len() && entry_key(#[trigger] s[j]) == k,
    decreases s.len(),
{
    if s.len() > 0 {
        let prefix = s.drop_last();
        lemma_entries_map_dom(prefix);
        let klast = entry_key(s.last());
        assert(entries_map(s) == entries_map(prefix).insert(klast, s.last().widget));
        assert forall|k: (u64, MouseButton)| #[trigger] entries_map(s).contains_key(k) implies
            exists|j: int| 0 <= j < s.len() && entry_key(#[trigger] s[j]) == k by {
            if k == klast {
                assert(entry_key(s[s.len() - 1]) == k);
            } else {
                assert(entries_map(prefix).contains_key(k));
                let j = choose|j: int|
                    0 <= j < prefix.len() && entry_key(#[trigger] prefix[j]) == k;
                assert(prefix[j] == s[j]);
                assert(entry_key(s[j]) == k);
            }
        }
        assert forall|k: (u64, MouseButton)|
            exists|j: int| 0 <= j < s.len() && entry_key(#[trigger] s[j]) == k implies
            #[trigger] entries_map(s).contains_key(k) by {
            let j = choose|j: int| 0 <= j < s.len() && entry_key(#[trigger] s[j]) == k;
            if j < s.len() - 1 {
                assert(prefix[j] == s[j]);
                assert(entries_map(prefix).contains_key(k));
            }
        }
    }
}

impl CaptureMap {
    /// The entries' keys are pairwise distinct, so each (device, button)
    /// pair holds at most one capture.
    pub open spec fn wf(self) -> bool {
        forall|j1: int, j2: int|
            0 <= j1 < j2 < self.entries@.len()
                ==> entry_key(#[trigger] self.entries@[j1])
                    != entry_key(#[trigger] self.entries@[j2])
    }

    /// An empty table: no device holds any capture.
    pub fn new() -> (r: CaptureMap)
        ensures
            r.wf(),
            r@ =~= Map::<(u64, MouseButton), usize>::empty(),
            r.entries@.len() == 0,
    {
        CaptureMap { entries: Vec::new() }
    }

    /// A distinct-keyed entry list maps each entry's key to its widget.
    proof fn lemma_get(s: Seq<CaptureEntry>, j: int)
        requires
            forall|j1: int, j2: int|
                0 <= j1 < j2 < s.len()
                    ==> entry_key(#[trigger] s[j1]) != entry_key(#[trigger] s[j2]),
            0 <= j < s.len(),
        ensures
            entries_map(s).contains_key(entry_key(s[j])),
            entries_map(s)[entry_key(s[j])] == s[j].widget,
        decreases s.len(),
    {
        if j == s.len() - 1 {
        } else {
            assert(s.drop_last()[j] == s[j]);
            Self::lemma_get(s.drop_last(), j);
            assert(entry_key(s[j]) != entry_key(s[s.len() - 1]));
        }
    }

    /// Looks up the widget capturing `(device, button)`, if any.
    pub fn get(&self, device: u64, button: MouseButton) -> (r: Option<usize>)
        requires
            self.wf(),
        ensures
            r == if self@.contains_key((device, button)) {
                Some(self@[(device, button)])
            } else {
                None::<usize>
            },
    {
        let mut j: usize = 0;
        while j < self.entries.len()
            invariant
                self.wf(),
                j <= self.entries@.len(),
                forall|m: int| 0 <= m < j ==> entry_key(#[trigger] self.entries@[m])
                    != (device, button),
            decreases self.entries@.len() - j,
        {
            let e = self.entries[j];
            if e.device == device && e.button == button {
                proof {
                    Self::lemma_get(self.entries@, j as int);
                }
                return Some(e.widget);
            }
            j += 1;
        }
        proof {
            lemma_entries_map_dom(self.entries@);
        }
        None
    }

    /// Whether `device` holds any capture, i.e. is mid-drag.
    pub fn device_active(&self, device: u64) -> (r: bool)
        requires
            self.wf(),
        ensures
            r == exists|b: MouseButton| self@.contains_key((device, b)),
    {
        let mut j: usize = 0;
        while j < self.entries.len()
            invariant
                self.wf(),
                j <= self.entries@.len(),
                forall|m: int| 0 <= m < j ==> (#[trigger] self.entries@[m]).device != device,
            decreases self.entries@.len() - j,
        {
            let e = self.entries[j];
            if e.device == device {
                proof {
                    lemma_entries_map_dom(self.entries@);
                    assert(entry_key(self.entries@[j as int]) == (device, e.button));
                    assert(self@.contains_key((device, e.button)));
                }
                return true;
            }
            j += 1;
        }
        proof {
            lemma_entries_map_dom(self.entries@);
            assert forall|b: MouseButton| !self@.contains_key((device, b)) by {
                if self@.contains_key((device, b)) {
                    let m = choose|m: int|
                        0 <= m < self.entries@.len()
                            && entry_key(#[trigger] self.entries@[m]) == (device, b);
                    assert(self.entries@[m].device == device);
                }
            }
        }
        false
    }

    /// Removing an entry removes exactly its key from the denoted map.
    proof fn lemma_remove(s: Seq<CaptureEntry>, j: int)
        requires
            forall|j1: int, j2: int|
                0 <= j1 < j2 < s.len()
                    ==> entry_key(#[trigger] s[j1]) != entry_key(#[trigger] s[j2]),
            0 <= j < s.len(),
        ensures
            entries_map(s.remove(j)) =~= entries_map(s).remove(entry_key(s[j])),
        decreases s.len(),
    {
        lemma_entries_map_dom(s.drop_last());
        s.remove_ensures(j);
        if j == s.len() - 1 {
            assert(s.remove(j) =~= s.drop_last());
            assert(!entries_map(s.drop_last()).contains_key(entry_key(s.last())));
        } else {
            assert(s.drop_last()[j] == s[j]);
            Self::lemma_remove(s.drop_last(), j);
            s.drop_last().remove_ensures(j);
            assert(s.remove(j).drop_last() =~= s.drop_last().remove(j));
            assert(s.remove(j).last() == s.last());
            assert(entry_key(s[j]) != entry_key(s.last()));
        }
    }

    /// Dissolves the capture for `(device, button)`, returning the widget
    /// that held it; the table is unchanged when no capture exists.
    pub fn remove(&mut self, device: u64, button: MouseButton) -> (r: Option<usize>)
        requires
            old(self).wf(),
        ensures
            final(self).wf(),
            r == if old(self)@.contains_key((device, button)) {
                Some(old(self)@[(device, button)])
            } else {
                None::<usize>
            },
            final(self)@ =~= old(self)@.remove((device, button)),
            forall|j: int| 0 <= j < final(self).entries@.len()
                ==> exists|m: int| 0 <= m < old(self).entries@.len()
                    && #[trigger] final(self).entries@[j] == old(self).entries@[m],
            match r {
                Some(w) => exists|m: int| 0 <= m < old(self).entries@.len()
                    && (#[trigger] old(self).entries@[m]).widget == w,
                None => true,
            },
    {
        let mut j: usize = 0;
        while j < self.entries.len()
            invariant
                self.wf(),
                *self == *old(self),
                j <= self.entries@.len(),
                forall|m: int| 0 <= m < j ==> entry_key(#[trigger] self.entries@[m])
                    != (device, button),
            decreases self.entries@.len() - j,
        {
            let e = self.entries[j];
            if e.device == device && e.button == button {
                proof {
                    Self::lemma_get(self.entries@, j as int);
                    Self::lemma_remove(self.entries@, j as int);
                    assert(entry_key(self.entries@[j as int]) == (device, button));
                }
                let ghost s = self.entries@;
                self.entries.remove(j);
                proof {
                    s.remove_ensures(j as int);
                    assert forall|j1: int, j2: int|
                        0 <= j1 < j2 < self.entries@.len() implies
                        entry_key(#[trigger] self.entries@[j1])
                            != entry_key(#[trigger] self.entries@[j2]) by {
                        let a1 = if j1 < j { j1 } else { j1 + 1 };
                        let a2 = if j2 < j { j2 } else { j2 + 1 };
                        assert(self.entries@[j1] == s[a1]);
                        assert(self.entries@[j2] == s[a2]);
                    }
                    assert forall|j1: int| 0 <= j1 < self.entries@.len() implies
                        exists|m: int| 0 <= m < s.len()
                            && #[trigger] self.entries@[j1] == s[m] by {
                        let a1 = if j1 < j { j1 } else { j1 + 1 };
                        assert(self.entries@[j1] == s[a1]);
                    }
                    assert(s[j as int].widget == e.widget);
                }
                return Some(e.widget);
            }
            j += 1;
        }
        proof {
            lemma_entries_map_dom(self.entries@);
            if self@.contains_key((device, button)) {
                let m = choose|m: int|
                    0 <= m < self.entries@.len()
                        && entry_key(#[trigger] self.entries@[m]) == (device, button);
                assert(false);
            }
            assert(final(self)@ =~= old(self)@.remove((device, button)));
        }
        None
    }

    /// Establishes the capture of `(device, button)` by `widget`,
    /// overriding any capture that pair still held.
    pub fn insert(&mut self, device: u64, button: MouseButton, widget: usize)
        requires
            old(self).wf(),
            old(self).entries@.len() < usize::MAX,
        ensures
            final(self).wf(),
            final(self)@ =~= old(self)@.insert((device, button), widget),
            forall|j: int| 0 <= j < final(self).entries@.len()
                ==> (#[trigger] final(self).entries@[j]).widget == widget
                    || exists|m: int| 0 <= m < old(self).entries@.len()
                        && final(self).entries@[j] == #[trigger] old(self).entries@[m],
    {
        self.remove(device, button);
        let ghost mid = self.entries@;
        self.entries.push(CaptureEntry { device, button, widget });
        proof {
            assert(self.entries@.drop_last() =~= mid);
            lemma_entries_map_dom(mid);
            assert forall|j1: int, j2: int|
                0 <= j1 < j2 < self.entries@.len() implies
                entry_key(#[trigger] self.entries@[j1])
                    != entry_key(#[trigger] self.entries@[j2]) by {
                if j2 == self.entries@.len() - 1 {
                    assert(self.entries@[j1] == mid[j1]);
                    if entry_key(mid[j1]) == (device, button) {
                        assert(entries_map(mid).contains_key((device, button)));
                    }
                }
            }
            assert forall|j1: int| 0 <= j1 < self.entries@.len() implies
                (#[trigger] self.entries@[j1]).widget == widget
                    || exists|m: int| 0 <= m < old(self).entries@.len()
                        && self.entries@[j1] == #[trigger] old(self).entries@[m] by {
                if j1 < self.entries@.len() - 1 {
                    assert(self.entries@[j1] == mid[j1]);
                    let m = choose|m: int| 0 <= m < old(self).entries@.len()
                        && mid[j1] == #[trigger] old(self).entries@[m];
                    assert(self.entries@[j1] == old(self).entries@[m]);
                }
            }
        }
    }

    /// The captures `device` holds, in table order, as (button, widget)
    /// pairs; what a drag for this device must be delivered to.
    pub fn device_captures(&self, device: u64) -> (r: Vec<(MouseButton, usize)>)
        requires
            self.wf(),
        ensures
            r@ == device_entries_upto(self.entries@, device, self.entries@.len() as int),
    {
        let mut result: Vec<(MouseButton, usize)> = Vec::new();
        let mut j: usize = 0;
        while j < self.entries.len()
            invariant
                j <= self.entries@.len(),
                result@ == device_entries_upto(self.entries@, device, j as int),
            decreases self.entries@.len() - j,
        {
            let e = self.entries[j];
            if e.device == device {
                result.push((e.button, e.widget));
            }
            j += 1;
        }
        result
    }
}

/// The (button, widget) pairs `device` holds among the first `j` entries,
/// in table order.
pub open spec fn device_entries_upto(s: Seq<CaptureEntry>, device: u64, j: int) -> Seq<
    (MouseButton, usize),
>
    decreases j,
{
    if j <= 0 || j > s.len() {
        Seq::empty()
    } else {
        let prev = device_entries_upto(s, device, j - 1);
        if s[j - 1].device == device {
            prev + seq![(s[j - 1].button, s[j - 1].widget)]
        } else {
            prev
        }
    }
}


/// The pair comes from an entry of the table with this device.
pub open spec fn pair_from_device(s: Seq<CaptureEntry>, device: u64, pair: (MouseButton, usize)) -> bool {
    exists|m: int|
        {
            &&& 0 <= m < s.len()
            &&& (#[trigger] s[m]).device == device
            &&& s[m].button == pair.0
            &&& s[m].widget == pair.1
        }
}

/// Every (button, widget) pair a device's capture listing yields comes
/// from an entry of the table with that device.
pub proof fn lemma_device_entries_member(s: Seq<CaptureEntry>, device: u64, j: int)
    ensures
        forall|k: int| 0 <= k < device_entries_upto(s, device, j).len()
            ==> pair_from_device(s, device, #[trigger] device_entries_upto(s, device, j)[k]),
    decreases j,
{
    if 0 < j <= s.len() {
        lemma_device_entries_member(s, device, j - 1);
        let cur = device_entries_upto(s, device, j);
        let prev = device_entries_upto(s, device, j - 1);
        assert forall|k: int| 0 <= k < cur.len() implies
            pair_from_device(s, device, #[trigger] cur[k]) by {
            if k < prev.len() {
                assert(cur[k] == prev[k]);
                assert(pair_from_device(s, device, prev[k]));
            } else {
                assert(s[j - 1].device == device && s[j - 1].button == cur[k].0
                    && s[j - 1].widget == cur[k].1);
            }
        }
    }
}

} // verus!
