//! Board registry for dynamic board dispatch.
//!
//! Holds the boards built from `--board` flags and TOML definitions; the
//! poll loop iterates them calling `poll_inputs()` and `apply_outputs()`
//! instead of hard-coding board types.  The name, stack ID, capabilities
//! and relay count each board reports are recorded when it is registered.
use vstd::prelude::*;
use vstd::string::StringExecFns;

use crate::hal::traits::{BoardCapability, SequentBoard};
use crate::text::{decimal, join, spec_decimal, spec_join, strings_view};

verus! {

/// What a board reported at registration: its name, stack ID,
/// capabilities and relay count.
pub struct BoardMeta {
    pub name: Seq<char>,
    pub stack_id: u8,
    pub capabilities: Seq<BoardCapability>,
    pub relay_count: nat,
}

struct MetaRecord {
    name: String,
    stack_id: u8,
    capabilities: Vec<BoardCapability>,
    relay_count: usize,
}

/// Registry of all active boards in the gateway.
pub struct BoardRegistry {
    boards: Vec<Box<dyn SequentBoard>>,
    meta: Vec<MetaRecord>,
}

/// Sum of the relay counts of the first `n` registered boards that report
/// the relay capability.
pub open spec fn spec_relay_total(meta: Seq<BoardMeta>, n: int) -> nat
    decreases n,
{
    if n <= 0 {
        0
    } else {
        spec_relay_total(meta, n - 1) + if meta[n - 1].capabilities.contains(BoardCapability::Relays) {
            meta[n - 1].relay_count
        } else {
            0
        }
    }
}

impl View for BoardRegistry {
    type V = Seq<BoardMeta>;

    closed spec fn view(&self) -> Seq<BoardMeta> {
        self.meta@.map_values(
            |m: MetaRecord|
                BoardMeta {
                    name: m.name@,
                    stack_id: m.stack_id,
                    capabilities: m.capabilities@,
                    relay_count: m.relay_count as nat,
                },
        )
    }
}

fn copy_capabilities(caps: &[BoardCapability]) -> (v: Vec<BoardCapability>)
    ensures
        v@ == caps@,
{
    let mut v: Vec<BoardCapability> = Vec::with_capacity(caps.len());
    let mut i: usize = 0;
    while i < caps.len()
        invariant
            i <= caps@.len(),
            v@ == caps@.subrange(0, i as int),
        decreases caps@.len() - i,
    {
        v.push(caps[i]);
        i += 1;
        proof {
            assert(v@ =~= caps@.subrange(0, i as int));
        }
    }
    proof {
        assert(caps@.subrange(0, caps@.len() as int) =~= caps@);
    }
    v
}

impl BoardRegistry {
    /// The registered boards themselves, in registration order.
    pub closed spec fn board_objects(&self) -> Seq<Box<dyn SequentBoard>> {
        self.boards@
    }

    /// An empty registry.
    pub fn new() -> (r: Self)
        ensures
            r@.len() == 0,
            r.board_objects().len() == 0,
    {
        BoardRegistry { boards: Vec::new(), meta: Vec::new() }
    }

    /// Register a board, recording the name, stack ID, capabilities and
    /// relay count it reports; returns its index (for diagnostics).  The
    /// recorded relay count is the board's answer to `relay_count`, which
    /// the trait leaves to each board.
    pub fn register(&mut self, board: Box<dyn SequentBoard>) -> (idx: usize)
        ensures
            final(self)@.len() == old(self)@.len() + 1,
            final(self)@.drop_last() == old(self)@,
            final(self)@.last().name == board.name_text(),
            final(self)@.last().stack_id == board.stack_level(),
            final(self)@.last().capabilities == board.capability_list(),
            idx == old(self)@.len(),
            final(self).board_objects() == old(self).board_objects().push(board),
    {
        let record = MetaRecord {
            name: String::from_str(board.name()),
            stack_id: board.stack_id(),
            capabilities: copy_capabilities(board.capabilities()),
            relay_count: board.relay_count(),
        };
        let idx = self.meta.len();
        let mut boards: Vec<Box<dyn SequentBoard>> = Vec::new();
        let mut meta: Vec<MetaRecord> = Vec::new();
        std::mem::swap(&mut boards, &mut self.boards);
        std::mem::swap(&mut meta, &mut self.meta);
        boards.push(board);
        let ghost before = meta@;
        meta.push(record);
        *self = BoardRegistry { boards, meta };
        proof {
            assert(self@.drop_last() =~= old(self)@);
        }
        idx
    }

    /// Number of registered boards.
    pub fn len(&self) -> (n: usize)
        ensures
            n == self@.len(),
    {
        self.meta.len()
    }

    /// Whether no board is registered.
    pub fn is_empty(&self) -> (b: bool)
        ensures
            b == (self@.len() == 0),
    {
        self.meta.len() == 0
    }

    /// All boards, mutably (for poll loop dispatch).
    pub fn boards_mut(&mut self) -> (b: &mut [Box<dyn SequentBoard>])
        ensures
            final(self)@ == old(self)@,
            b@ == old(self).board_objects(),
            final(self).board_objects() == final(b)@,
    {
        self.boards.as_mut_slice()
    }

    /// All boards (for logging and diagnostics), in registration order.
    pub fn boards(&self) -> (b: &[Box<dyn SequentBoard>])
        ensures
            b@ == self.board_objects(),
    {
        self.boards.as_slice()
    }

    /// Total relay count across the boards that report relay capability
    /// (the sum must fit in a `usize`).
    pub fn total_relay_count(&self) -> (total: usize)
        requires
            spec_relay_total(self@, self@.len() as int) <= usize::MAX,
        ensures
            total == spec_relay_total(self@, self@.len() as int),
    {
        let mut total: usize = 0;
        let mut i: usize = 0;
        while i < self.meta.len()
            invariant
                i <= self.meta@.len(),
                self@.len() == self.meta@.len(),
                total == spec_relay_total(self@, i as int),
                spec_relay_total(self@, self@.len() as int) <= usize::MAX,
            decreases self.meta@.len() - i,
        {
            proof {
                lemma_relay_total_monotone(self@, i as int + 1, self@.len() as int);
            }
            let m = &self.meta[i];
            assert(self@[i as int].capabilities == m.capabilities@);
            if crate::hal::traits::capability_listed(m.capabilities.as_slice(), BoardCapability::Relays) {
                total = total + m.relay_count;
            }
            i += 1;
        }
        total
    }

    /// Total relay count across the boards that report relay capability,
    /// or `None` when it does not fit in a `usize`.
    pub fn checked_total_relay_count(&self) -> (total: Option<usize>)
        ensures
            total == if spec_relay_total(self@, self@.len() as int) <= usize::MAX {
                Some(spec_relay_total(self@, self@.len() as int) as usize)
            } else {
                None::<usize>
            },
    {
        let mut total: usize = 0;
        let mut i: usize = 0;
        while i < self.meta.len()
            invariant
                i <= self.meta@.len(),
                self@.len() == self.meta@.len(),
                total == spec_relay_total(self@, i as int),
            decreases self.meta@.len() - i,
        {
            let m = &self.meta[i];
            assert(self@[i as int].capabilities == m.capabilities@);
            assert(self@[i as int].relay_count == m.relay_count);
            if crate::hal::traits::capability_listed(m.capabilities.as_slice(), BoardCapability::Relays) {
                if total > usize::MAX - m.relay_count {
                    proof {
                        lemma_relay_total_monotone(self@, i as int + 1, self@.len() as int);
                    }
                    return None;
                }
                total = total + m.relay_count;
            }
            i += 1;
        }
        Some(total)
    }

    /// Whether any registered board has `cap`.
    pub fn has_capability(&self, cap: BoardCapability) -> (b: bool)
        ensures
            b == exists|i: int| 0 <= i < self@.len() && #[trigger] self@[i].capabilities.contains(cap),
    {
        let mut i: usize = 0;
        while i < self.meta.len()
            invariant
                i <= self.meta@.len(),
                self@.len() == self.meta@.len(),
                forall|j: int| 0 <= j < i ==> !#[trigger] self@[j].capabilities.contains(cap),
            decreases self.meta@.len() - i,
        {
            assert(self@[i as int].capabilities == self.meta@[i as int].capabilities@);
            if crate::hal::traits::capability_listed(self.meta[i].capabilities.as_slice(), cap) {
                return true;
            }
            i += 1;
        }
        false
    }
}

/// The name of a capability, as `{:?}` writes it.
pub open spec fn spec_capability_name(c: BoardCapability) -> Seq<char> {
    match c {
        BoardCapability::Relays => "Relays"@,
        BoardCapability::DiscreteInputs => "DiscreteInputs"@,
        BoardCapability::DiscreteOutputs => "DiscreteOutputs"@,
        BoardCapability::AnalogInputs => "AnalogInputs"@,
        BoardCapability::AnalogOutputs => "AnalogOutputs"@,
    }
}

/// A list of capabilities as `{:?}` writes it, e.g. `[Relays]`.
pub open spec fn spec_capabilities_text(caps: Seq<BoardCapability>) -> Seq<char> {
    "["@ + spec_join(caps.map_values(|c: BoardCapability| spec_capability_name(c)), ", "@) + "]"@
}

/// The summary line of board `i`.
pub open spec fn spec_summary_line(i: nat, m: BoardMeta) -> Seq<char> {
    "  ["@ + spec_decimal(i) + "] "@ + m.name + " — stack "@ + spec_decimal(m.stack_id as nat)
        + " — "@ + spec_capabilities_text(m.capabilities) + " — "@ + spec_decimal(m.relay_count)
        + " relays"@
}

/// The startup summary: a count line, then one line per board in
/// registration order.
pub open spec fn spec_startup_summary(meta: Seq<BoardMeta>) -> Seq<Seq<char>> {
    seq!["Registered boards: "@ + spec_decimal(meta.len())] + Seq::new(
        meta.len(),
        |i: int| spec_summary_line(i as nat, meta[i]),
    )
}

fn capability_name(c: BoardCapability) -> (s: String)
    ensures
        s@ == spec_capability_name(c),
{
    match c {
        BoardCapability::Relays => String::from_str("Relays"),
        BoardCapability::DiscreteInputs => String::from_str("DiscreteInputs"),
        BoardCapability::DiscreteOutputs => String::from_str("DiscreteOutputs"),
        BoardCapability::AnalogInputs => String::from_str("AnalogInputs"),
        BoardCapability::AnalogOutputs => String::from_str("AnalogOutputs"),
    }
}

fn capabilities_text(caps: &Vec<BoardCapability>) -> (s: String)
    ensures
        s@ == spec_capabilities_text(caps@),
{
    let mut names: Vec<String> = Vec::new();
    let mut i: usize = 0;
    while i < caps.len()
        invariant
            i <= caps@.len(),
            strings_view(names@) == caps@.subrange(0, i as int).map_values(
                |c: BoardCapability| spec_capability_name(c),
            ),
        decreases caps@.len() - i,
    {
        let ghost before = names@;
        let nm = capability_name(caps[i]);
        assert(strings_view(before).len() == before.len());
        names.push(nm);
        proof {
            assert(names@ == before.push(nm));
            let want = caps@.subrange(0, i + 1).map_values(
                |c: BoardCapability| spec_capability_name(c),
            );
            let prev = caps@.subrange(0, i as int).map_values(
                |c: BoardCapability| spec_capability_name(c),
            );
            assert forall|k: int| 0 <= k < i + 1 implies #[trigger] strings_view(names@)[k]
                == want[k] by {
                if k < i {
                    assert(names@[k] == before[k]);
                    assert(strings_view(before)[k] == prev[k]);
                }
            }
            assert(strings_view(names@) =~= want);
        }
        i += 1;
    }
    proof {
        assert(caps@.subrange(0, caps@.len() as int) =~= caps@);
    }
    let mut s = String::from_str("[");
    let body = join(names.as_slice(), ", ");
    s.append(body.as_str());
    s.append("]");
    s
}

impl BoardRegistry {
    /// The lines of the startup summary, for logging at INFO level: the
    /// number of boards, then for each board its index, name, stack ID,
    /// capabilities and relay count as reported at registration.
    pub fn log_startup_summary(&self) -> (lines: Vec<String>)
        ensures
            strings_view(lines@) == spec_startup_summary(self@),
    {
        let mut lines: Vec<String> = Vec::new();
        let mut head = String::from_str("Registered boards: ");
        let n = decimal(self.meta.len() as u64);
        head.append(n.as_str());
        lines.push(head);
        let mut i: usize = 0;
        while i < self.meta.len()
            invariant
                i <= self.meta@.len(),
                self@.len() == self.meta@.len(),
                strings_view(lines@) == spec_startup_summary(self@).subrange(0, i + 1),
            decreases self.meta@.len() - i,
        {
            let m = &self.meta[i];
            assert(self@[i as int].name == m.name@);
            let mut line = String::from_str("  [");
            let a = decimal(i as u64);
            line.append(a.as_str());
            line.append("] ");
            line.append(m.name.as_str());
            line.append(" — stack ");
            let b = decimal(m.stack_id as u64);
            line.append(b.as_str());
            line.append(" — ");
            let c = capabilities_text(&m.capabilities);
            line.append(c.as_str());
            line.append(" — ");
            let d = decimal(m.relay_count as u64);
            line.append(d.as_str());
            line.append(" relays");
            assert(self@[i as int].stack_id == m.stack_id);
            assert(self@[i as int].capabilities == m.capabilities@);
            assert(self@[i as int].relay_count == m.relay_count);
            assert(line@ == spec_summary_line(i as nat, self@[i as int]));
            let ghost before = lines@;
            assert(strings_view(before).len() == before.len());
            lines.push(line);
            proof {
                assert(lines@ == before.push(line));
                let want = spec_startup_summary(self@).subrange(0, i + 2);
                let prev = spec_startup_summary(self@).subrange(0, i + 1);
                assert forall|k: int| 0 <= k < i + 2 implies #[trigger] strings_view(lines@)[k]
                    == want[k] by {
                    if k < i + 1 {
                        assert(lines@[k] == before[k]);
                        assert(strings_view(before)[k] == prev[k]);
                    }
                }
                assert(strings_view(lines@) =~= want);
            }
            i += 1;
        }
        proof {
            assert(spec_startup_summary(self@).subrange(0, i + 1) =~= spec_startup_summary(self@));
        }
        lines
    }
}

/// The relay total only grows as more boards are counted.
pub proof fn lemma_relay_total_monotone(meta: Seq<BoardMeta>, m: int, n: int)
    requires
        0 <= m <= n,
    ensures
        spec_relay_total(meta, m) <= spec_relay_total(meta, n),
    decreases n - m,
{
    if m < n {
        lemma_relay_total_monotone(meta, m, n - 1);
    }
}

proof fn lemma_relay_total_prefix(meta: Seq<BoardMeta>, b: BoardMeta, n: int)
    requires
        0 <= n <= meta.len(),
    ensures
        spec_relay_total(meta.push(b), n) == spec_relay_total(meta, n),
    decreases n,
{
    if n > 0 {
        lemma_relay_total_prefix(meta, b, n - 1);
        assert(meta.push(b)[n - 1] == meta[n - 1]);
    }
}

/// Registering a board adds its relay count to the total exactly when it
/// reports relay capability; other boards leave the total unchanged.
pub proof fn lemma_register_adds_relays(meta: Seq<BoardMeta>, b: BoardMeta)
    ensures
        spec_relay_total(meta.push(b), meta.len() + 1int) == spec_relay_total(meta, meta.len() as int)
            + if b.capabilities.contains(BoardCapability::Relays) {
            b.relay_count
        } else {
            0
        },
{
    lemma_relay_total_prefix(meta, b, meta.len() as int);
    assert(meta.push(b)[meta.len() as int] == b);
}

/// Registering a board never loses a capability: every capability some
/// board had, some board still has.
pub proof fn lemma_register_keeps_capabilities(meta: Seq<BoardMeta>, b: BoardMeta, cap: BoardCapability)
    requires
        exists|i: int| 0 <= i < meta.len() && #[trigger] meta[i].capabilities.contains(cap),
    ensures
        exists|i: int| 0 <= i < meta.len() + 1 && #[trigger] meta.push(b)[i].capabilities.contains(cap),
{
    let i = choose|i: int| 0 <= i < meta.len() && #[trigger] meta[i].capabilities.contains(cap);
    assert(meta.push(b)[i] == meta[i]);
}


/// A registered board's capabilities show in the registry: after
/// registering `board`, every capability it lists is one some registered
/// board has, and the relay total grows by the recorded relay count
/// exactly when the board lists relays.
pub proof fn lemma_registered_board_shows(
    meta: Seq<BoardMeta>,
    after: Seq<BoardMeta>,
    board: Box<dyn SequentBoard>,
    cap: BoardCapability,
)
    requires
        after.len() == meta.len() + 1,
        after.drop_last() == meta,
        after.last().capabilities == board.capability_list(),
        board.capability_list().contains(cap),
    ensures
        exists|i: int| 0 <= i < after.len() && #[trigger] after[i].capabilities.contains(cap),
        spec_relay_total(after, after.len() as int) == spec_relay_total(meta, meta.len() as int)
            + if board.capability_list().contains(BoardCapability::Relays) {
            after.last().relay_count
        } else {
            0
        },
{
    assert(after =~= meta.push(after.last()));
    assert(after[after.len() - 1].capabilities.contains(cap));
    lemma_register_adds_relays(meta, after.last());
}

} // verus!
