//! Output state caching, organised by I/O group index.
//!
//! Tracks the last-written state of output channels.  An I²C write is only
//! issued when the requested state differs from the cached value, so held
//! outputs do not saturate the bus.  Every slot starts unknown (`None`),
//! which forces a write of every output on the first cycle.
//!
//! Boolean outputs (coils/relays) are stored as `0` / `1`; analog outputs
//! as the raw Modbus register value.
use vstd::prelude::*;

verus! {

/// Cached output state: one slot vector per output I/O group.
#[derive(Debug)]
pub struct OutputCache {
    groups: Vec<Vec<Option<u16>>>,
}

/// The slot at `(group, channel)`, when both indices are in range.
pub open spec fn spec_slot(c: Seq<Seq<Option<u16>>>, group: int, channel: int) -> Option<
    Option<u16>,
> {
    if 0 <= group < c.len() && 0 <= channel < c[group].len() {
        Some(c[group][channel])
    } else {
        None
    }
}

/// Set the slot at `(group, channel)` to `v`; out-of-range indices leave
/// the cache unchanged.
pub open spec fn spec_set_slot(
    c: Seq<Seq<Option<u16>>>,
    group: int,
    channel: int,
    v: Option<u16>,
) -> Seq<Seq<Option<u16>>> {
    if 0 <= group < c.len() && 0 <= channel < c[group].len() {
        c.update(group, c[group].update(channel, v))
    } else {
        c
    }
}

/// A value needs writing when its slot exists and does not hold it.
pub open spec fn spec_should_update(c: Seq<Seq<Option<u16>>>, group: int, channel: int, v: u16) -> bool {
    match spec_slot(c, group, channel) {
        Some(cached) => cached != Some(v),
        None => false,
    }
}

/// A slot is confirmed when it exists and holds a known value.
pub open spec fn spec_has_confirmed(c: Seq<Seq<Option<u16>>>, group: int, channel: int) -> bool {
    match spec_slot(c, group, channel) {
        Some(cached) => cached is Some,
        None => false,
    }
}

/// Bit `b` of a 16-bit word.
pub open spec fn word_bit(w: u16, b: int) -> bool {
    (w >> (b as u16)) & 1u16 == 1u16
}

/// Whether bit `b` of the bitmask of `group` over `count` channels is set:
/// only the first `count` channels count, and only a confirmed `1` sets a bit.
pub open spec fn spec_bitmask_bit(c: Seq<Seq<Option<u16>>>, group: int, count: int, b: int) -> bool {
    &&& 0 <= group < c.len()
    &&& 0 <= b < count
    &&& b < c[group].len()
    &&& c[group][b] == Some(1u16)
}

impl View for OutputCache {
    type V = Seq<Seq<Option<u16>>>;

    closed spec fn view(&self) -> Seq<Seq<Option<u16>>> {
        self.groups@.map_values(|g: Vec<Option<u16>>| g@)
    }
}

pub(crate) proof fn lemma_set_bit16(v: u16, i: u16, b: u16)
    requires
        i < 16,
        b < 16,
    ensures
        ((v | (1u16 << i)) >> b) & 1u16 == 1u16 <==> ((v >> b) & 1u16 == 1u16 || b == i),
{
    assert(((v | (1u16 << i)) >> b) & 1u16 == 1u16 <==> ((v >> b) & 1u16 == 1u16 || b == i))
        by (bit_vector)
        requires
            i < 16,
            b < 16,
    ;
}

pub(crate) proof fn lemma_zero_bit16(b: u16)
    requires
        b < 16,
    ensures
        (0u16 >> b) & 1u16 != 1u16,
{
    assert((0u16 >> b) & 1u16 != 1u16) by (bit_vector);
}

impl OutputCache {
    /// A cache with one all-unknown slot vector per output group, sized
    /// by `group_sizes`.
    pub fn from_groups(group_sizes: &[usize]) -> (c: Self)
        ensures
            c@.len() == group_sizes@.len(),
            forall|g: int|
                0 <= g < group_sizes@.len() ==> #[trigger] c@[g] == Seq::new(
                    group_sizes@[g] as nat,
                    |i: int| None::<u16>,
                ),
    {
        let mut groups: Vec<Vec<Option<u16>>> = Vec::new();
        let mut g: usize = 0;
        while g < group_sizes.len()
            invariant
                g <= group_sizes@.len(),
                groups@.len() == g,
                forall|k: int|
                    0 <= k < g ==> #[trigger] groups@[k]@ == Seq::new(
                        group_sizes@[k] as nat,
                        |i: int| None::<u16>,
                    ),
            decreases group_sizes@.len() - g,
        {
            let n = group_sizes[g];
            let mut slots: Vec<Option<u16>> = Vec::new();
            let mut i: usize = 0;
            while i < n
                invariant
                    i <= n,
                    slots@ == Seq::new(i as nat, |j: int| None::<u16>),
                decreases n - i,
            {
                slots.push(None);
                i += 1;
                proof {
                    assert(slots@ =~= Seq::new(i as nat, |j: int| None::<u16>));
                }
            }
            groups.push(slots);
            g += 1;
        }
        let c = OutputCache { groups };
        proof {
            assert forall|k: int| 0 <= k < group_sizes@.len() implies #[trigger] c@[k] == Seq::new(
                group_sizes@[k] as nat,
                |i: int| None::<u16>,
            ) by {
                assert(c@[k] == c.groups@[k]@);
            }
        }
        c
    }

    /// Whether the value at `(group, channel)` needs writing: `true` when
    /// the slot is unknown or holds another value, `false` when it already
    /// holds `new_val` or the indices are out of range.
    pub fn should_update(&self, group: usize, channel: usize, new_val: u16) -> (b: bool)
        ensures
            b == spec_should_update(self@, group as int, channel as int, new_val),
    {
        if group < self.groups.len() && channel < self.groups[group].len() {
            match self.groups[group][channel] {
                Some(cached) => cached != new_val,
                None => true,
            }
        } else {
            false
        }
    }

    fn set_slot(&mut self, group: usize, channel: usize, v: Option<u16>)
        ensures
            final(self)@ == spec_set_slot(old(self)@, group as int, channel as int, v),
        no_unwind
    {
        if group < self.groups.len() && channel < self.groups[group].len() {
            let ghost before = self@;
            self.groups[group][channel] = v;
            proof {
                assert(self@ =~= spec_set_slot(before, group as int, channel as int, v));
            }
        }
    }

    /// Mark a channel as successfully written with `val`.
    pub fn confirm(&mut self, group: usize, channel: usize, val: u16)
        ensures
            final(self)@ == spec_set_slot(old(self)@, group as int, channel as int, Some(val)),
            final(self)@.len() == old(self)@.len(),
            forall|g: int|
                0 <= g < old(self)@.len() ==> #[trigger] final(self)@[g].len() == old(self)@[g].len(),
        no_unwind
    {
        self.set_slot(group, channel, Some(val));
    }

    /// Forget the cached state so that the next cycle retries the write.
    pub fn invalidate(&mut self, group: usize, channel: usize)
        ensures
            final(self)@ == spec_set_slot(old(self)@, group as int, channel as int, None),
            final(self)@.len() == old(self)@.len(),
            forall|g: int|
                0 <= g < old(self)@.len() ==> #[trigger] final(self)@[g].len() == old(self)@[g].len(),
        no_unwind
    {
        self.set_slot(group, channel, None);
    }

    /// Bitmask of the confirmed `1` values among the first `count` channels
    /// of `group` (bit `i` = channel `i`); 0 for an unknown group.
    pub fn bitmask(&self, group: usize, count: usize) -> (mask: u16)
        requires
            forall|i: int|
                16 <= i < count && 0 <= group < self@.len() && i < self@[group as int].len()
                    ==> self@[group as int][i] != Some(1u16),
        ensures
            forall|b: int|
                0 <= b < 16 ==> #[trigger] word_bit(mask, b) == spec_bitmask_bit(
                    self@,
                    group as int,
                    count as int,
                    b,
                ),
    {
        if group >= self.groups.len() {
            proof {
                assert forall|b: int| 0 <= b < 16 implies !#[trigger] word_bit(0u16, b) by {
                    lemma_zero_bit16(b as u16);
                }
            }
            return 0;
        }
        let g = &self.groups[group];
        let ghost gv = self@[group as int];
        assert(g@ == gv);
        let n = if count < g.len() {
            count
        } else {
            g.len()
        };
        let mut mask: u16 = 0;
        proof {
            assert forall|b: int| 0 <= b < 16 implies !#[trigger] word_bit(mask, b) by {
                lemma_zero_bit16(b as u16);
            }
        }
        let mut i: usize = 0;
        while i < n
            invariant
                g@ == gv,
                n <= count,
                n <= g@.len(),
                i <= n,
                forall|j: int| 16 <= j < n ==> gv[j] != Some(1u16),
                forall|b: int|
                    0 <= b < 16 ==> #[trigger] word_bit(mask, b) == (b < i && gv[b] == Some(1u16)),
            decreases n - i,
        {
            if g[i] == Some(1u16) {
                let old_mask = mask;
                mask = mask | (1u16 << (i as u16));
                proof {
                    assert forall|b: int| 0 <= b < 16 implies #[trigger] word_bit(mask, b) == (
                    word_bit(old_mask, b) || b == i) by {
                        lemma_set_bit16(old_mask, i as u16, b as u16);
                    }
                }
            }
            i += 1;
        }
        mask
    }

    /// Whether the channel has a confirmed (known) state.
    pub fn has_confirmed(&self, group: usize, channel: usize) -> (b: bool)
        ensures
            b == spec_has_confirmed(self@, group as int, channel as int),
    {
        if group < self.groups.len() && channel < self.groups[group].len() {
            self.groups[group][channel].is_some()
        } else {
            false
        }
    }
}


/// A fresh cache asks for a write of every in-range slot, whatever the
/// value, and has nothing confirmed.
pub proof fn lemma_fresh_cache_needs_update(sizes: Seq<usize>, c: Seq<Seq<Option<u16>>>, group: int, channel: int, v: u16)
    requires
        c.len() == sizes.len(),
        forall|g: int| 0 <= g < sizes.len() ==> #[trigger] c[g] == Seq::new(sizes[g] as nat, |i: int| None::<u16>),
        0 <= group < sizes.len(),
        0 <= channel < sizes[group],
    ensures
        spec_should_update(c, group, channel, v),
        !spec_has_confirmed(c, group, channel),
{
    assert(c[group].len() == sizes[group]);
}

/// After confirming `v` at a slot, that value no longer needs writing, any
/// other value does, and the slot counts as confirmed.
pub proof fn lemma_confirm_then_query(c: Seq<Seq<Option<u16>>>, group: int, channel: int, v: u16, w: u16)
    requires
        0 <= group < c.len(),
        0 <= channel < c[group].len(),
    ensures
        !spec_should_update(spec_set_slot(c, group, channel, Some(v)), group, channel, v),
        w != v ==> spec_should_update(spec_set_slot(c, group, channel, Some(v)), group, channel, w),
        spec_has_confirmed(spec_set_slot(c, group, channel, Some(v)), group, channel),
{
}

/// After invalidating a slot, every value needs writing again and the slot
/// is no longer confirmed.
pub proof fn lemma_invalidate_then_query(c: Seq<Seq<Option<u16>>>, group: int, channel: int, w: u16)
    requires
        0 <= group < c.len(),
        0 <= channel < c[group].len(),
    ensures
        spec_should_update(spec_set_slot(c, group, channel, None), group, channel, w),
        !spec_has_confirmed(spec_set_slot(c, group, channel, None), group, channel),
{
}

/// Setting one slot leaves every other slot, in its own group or in
/// another group, unchanged: groups and channels are independent.
pub proof fn lemma_slots_independent(c: Seq<Seq<Option<u16>>>, group: int, channel: int, v: Option<u16>, g2: int, c2: int)
    requires
        group != g2 || channel != c2,
    ensures
        spec_slot(spec_set_slot(c, group, channel, v), g2, c2) == spec_slot(c, g2, c2),
{
}

/// Out-of-range indices never ask for a write and are never confirmed.
pub proof fn lemma_out_of_range_never_updates(c: Seq<Seq<Option<u16>>>, group: int, channel: int, v: u16)
    requires
        !(0 <= group < c.len() && 0 <= channel < c[group].len()),
    ensures
        !spec_should_update(c, group, channel, v),
        !spec_has_confirmed(c, group, channel),
{
}

} // verus!
