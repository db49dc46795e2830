//! Scenario configuration: a validation scenario built from the selected
//! board definitions and the command-line options.
//!
//! Channel counts are summed across all selected boards, so adding a relay
//! board raises `relay_count`, and so on.
use vstd::prelude::*;
use vstd::string::StringExecFns;

use crate::board_def::{same_def, BoardDef, ChannelConfig};
use crate::cli::ValidateArgs;
use crate::ranking::{sort_ranked, spec_ranked, Ranked};
use crate::text::{
    contains_str, debug_str, decimal, join, lemma_text_less_asym, lemma_text_less_total,
    lemma_text_less_trans, parse_uint, spec_contains, spec_debug_str, spec_decimal, spec_join,
    spec_lowercase, spec_parse_uint, spec_split, spec_text_less, spec_trim, split_char,
    strings_view, text_less, to_lowercase, trim,
};

verus! {

/// Fully-resolved scenario configuration.
#[derive(Debug, Clone)]
pub struct ScenarioConfig {
    pub name: String,
    pub description: String,
    pub boards: Vec<String>,
    pub single_slave: bool,
    pub relay_slave_id: u8,
    pub ind_slave_id: u8,
    pub ind_stack: u8,
    pub relay_stack: u8,
    pub health_port: u16,
    pub modbus_port: u16,
    pub boards_dir: String,
    pub relay_count: u16,
    pub opto_channels: u16,
    pub ma_in_channels: u16,
    pub v_in_channels: u16,
    pub od_channels: u16,
    pub v_out_channels: u16,
    pub ma_out_channels: u16,
    pub relay_readback: bool,
    pub test_health: bool,
    pub test_analog_inputs: bool,
    pub test_relay_writes: bool,
    pub test_od_outputs: bool,
    pub test_analog_outputs: bool,
    pub test_stability: bool,
}

/// Channel counts summed by a scenario: 0 relays, 1 opto inputs,
/// 2 4-20 mA inputs, 3 0-10 V inputs, 4 open-drain outputs, 5 0-10 V
/// outputs, 6 4-20 mA outputs.
pub open spec fn spec_field(c: ChannelConfig, which: int) -> Option<usize> {
    if which == 0 {
        c.relays
    } else if which == 1 {
        c.opto_inputs
    } else if which == 2 {
        c.analog_4_20ma_inputs
    } else if which == 3 {
        c.analog_0_10v_inputs
    } else if which == 4 {
        c.od_outputs
    } else if which == 5 {
        c.analog_0_10v_outputs
    } else {
        c.analog_4_20ma_outputs
    }
}

/// A count as it enters a 16-bit total: unset is 0, and the count is
/// truncated to 16 bits.
pub open spec fn spec_count16(o: Option<usize>) -> int {
    match o {
        Some(n) => (n % 0x1_0000) as int,
        None => 0,
    }
}

/// The total of count `which` over the definitions.
pub open spec fn spec_total(defs: Seq<BoardDef>, which: int) -> int
    decreases defs.len(),
{
    if defs.len() == 0 {
        0
    } else {
        spec_total(defs.drop_last(), which) + spec_count16(spec_field(defs.last().channels, which))
    }
}

/// Whether a board name marks an Industrial (MegaInd) board.
pub open spec fn spec_is_megaind_name(name: Seq<char>) -> bool {
    spec_contains(spec_lowercase(name), "megaind"@) || spec_contains(
        spec_lowercase(name),
        "industrial"@,
    )
}

/// Whether one of the definitions is an Industrial board.
pub open spec fn spec_has_megaind_def(defs: Seq<BoardDef>) -> bool {
    exists|i: int| 0 <= i < defs.len() && #[trigger] spec_is_megaind_name(defs[i].board.name@)
}

/// `single-slave` or `multi-slave`.
pub open spec fn spec_mode(single: bool) -> Seq<char> {
    if single {
        "single-slave"@
    } else {
        "multi-slave"@
    }
}

proof fn lemma_total_prefix_le(defs: Seq<BoardDef>, which: int, n: int)
    requires
        0 <= n <= defs.len(),
    ensures
        0 <= spec_total(defs.subrange(0, n), which) <= spec_total(defs, which),
    decreases defs.len() - n,
{
    if n < defs.len() {
        lemma_total_prefix_le(defs, which, n + 1);
        assert(defs.subrange(0, n + 1).drop_last() =~= defs.subrange(0, n));
    } else {
        assert(defs.subrange(0, n) =~= defs);
    }
    lemma_total_nonneg(defs.subrange(0, n), which);
}

proof fn lemma_total_nonneg(defs: Seq<BoardDef>, which: int)
    ensures
        spec_total(defs, which) >= 0,
    decreases defs.len(),
{
    if defs.len() > 0 {
        lemma_total_nonneg(defs.drop_last(), which);
    }
}

fn field(c: &ChannelConfig, which: u8) -> (o: Option<usize>)
    ensures
        o == spec_field(*c, which as int),
{
    if which == 0 {
        c.relays
    } else if which == 1 {
        c.opto_inputs
    } else if which == 2 {
        c.analog_4_20ma_inputs
    } else if which == 3 {
        c.analog_0_10v_inputs
    } else if which == 4 {
        c.od_outputs
    } else if which == 5 {
        c.analog_0_10v_outputs
    } else {
        c.analog_4_20ma_outputs
    }
}

fn total(defs: &[BoardDef], which: u8) -> (t: u16)
    requires
        spec_total(defs@, which as int) <= u16::MAX,
    ensures
        t == spec_total(defs@, which as int),
{
    let mut t: u16 = 0;
    let mut i: usize = 0;
    while i < defs.len()
        invariant
            i <= defs@.len(),
            spec_total(defs@, which as int) <= u16::MAX,
            t == spec_total(defs@.subrange(0, i as int), which as int),
        decreases defs@.len() - i,
    {
        proof {
            assert(defs@.subrange(0, i + 1).drop_last() =~= defs@.subrange(0, i as int));
            lemma_total_prefix_le(defs@, which as int, i + 1);
        }
        let c = match field(&defs[i].channels, which) {
            Some(n) => (n % 0x1_0000) as u16,
            None => 0,
        };
        t = t + c;
        i += 1;
    }
    proof {
        assert(defs@.subrange(0, defs@.len() as int) =~= defs@);
    }
    t
}

fn is_megaind_name(name: &String) -> (b: bool)
    ensures
        b == spec_is_megaind_name(name@),
{
    let lower = to_lowercase(name.as_str());
    contains_str(lower.as_str(), "megaind") || contains_str(lower.as_str(), "industrial")
}

fn has_megaind_def(defs: &[BoardDef]) -> (b: bool)
    ensures
        b == spec_has_megaind_def(defs@),
{
    let mut i: usize = 0;
    while i < defs.len()
        invariant
            i <= defs@.len(),
            forall|j: int| 0 <= j < i ==> !#[trigger] spec_is_megaind_name(defs@[j].board.name@),
        decreases defs@.len() - i,
    {
        if is_megaind_name(&defs[i].board.name) {
            return true;
        }
        i += 1;
    }
    false
}

/// A copy of a list of texts.
pub fn copy_strings(v: &[String]) -> (r: Vec<String>)
    ensures
        r@ == v@,
{
    let mut r: Vec<String> = Vec::new();
    let mut i: usize = 0;
    while i < v.len()
        invariant
            i <= v@.len(),
            r@ == v@.subrange(0, i as int),
        decreases v@.len() - i,
    {
        r.push(v[i].clone());
        i += 1;
        proof {
            assert(r@ =~= v@.subrange(0, i as int));
        }
    }
    proof {
        assert(v@.subrange(0, v@.len() as int) =~= v@);
    }
    r
}

/// The gateway command line of a scenario, after the binary.
pub open spec fn spec_board_args(boards: Seq<Seq<char>>) -> Seq<Seq<char>>
    decreases boards.len(),
{
    if boards.len() == 0 {
        Seq::empty()
    } else {
        spec_board_args(boards.drop_last()) + seq!["--board"@, boards.last()]
    }
}

/// The argument list for spawning the gateway of scenario `c`.
pub open spec fn spec_gateway_args(c: ScenarioConfig, bin: Seq<char>) -> Seq<Seq<char>> {
    seq![bin] + spec_board_args(strings_view(c.boards@)) + seq![
        "--port"@,
        spec_decimal(c.modbus_port as nat),
        "--health-port"@,
        spec_decimal(c.health_port as nat),
        "--ind-stack"@,
        spec_decimal(c.ind_stack as nat),
        "--relay-stack"@,
        spec_decimal(c.relay_stack as nat),
        "--relay-slave-id"@,
        spec_decimal(c.relay_slave_id as nat),
        "--ind-slave-id"@,
        spec_decimal(c.ind_slave_id as nat),
    ] + (if c.single_slave {
        seq!["--single-slave"@]
    } else {
        Seq::empty()
    }) + seq!["--boards-dir"@, c.boards_dir@]
}

fn push_str(v: &mut Vec<String>, s: &str)
    ensures
        strings_view(final(v)@) == strings_view(old(v)@).push(s@),
{
    let ghost before = v@;
    v.push(String::from_str(s));
    proof {
        assert(strings_view(v@) =~= strings_view(before).push(s@));
    }
}

fn push_num(v: &mut Vec<String>, n: u64)
    ensures
        strings_view(final(v)@) == strings_view(old(v)@).push(spec_decimal(n as nat)),
{
    let ghost before = v@;
    v.push(decimal(n));
    proof {
        assert(strings_view(v@) =~= strings_view(before).push(spec_decimal(n as nat)));
    }
}

impl ScenarioConfig {
    /// Build a scenario from the selected boards (`board_names`, their
    /// definitions `defs`) and the validation options.  Channel counts are
    /// summed across the definitions (each count truncated to 16 bits, the
    /// totals must fit in 16 bits); relay read-back is expected when an
    /// Industrial board (name containing `megaind` or `industrial`, in any
    /// case) comes with relays; every test is enabled.
    pub fn from_boards(board_names: &[String], defs: &[BoardDef], args: &ValidateArgs) -> (c: Self)
        requires
            forall|w: int| 0 <= w < 7 ==> #[trigger] spec_total(defs@, w) <= u16::MAX,
        ensures
            c.name@ == spec_join(strings_view(board_names@), " + "@) + " ("@ + spec_mode(
                args.single_slave,
            ) + ")"@,
            c.description@ == "Dynamic scenario: "@ + spec_decimal(board_names@.len()) + " board(s), "@
                + spec_mode(args.single_slave) + " addressing"@,
            c.boards@ == board_names@,
            c.single_slave == args.single_slave,
            c.relay_slave_id == args.relay_slave_id,
            c.ind_slave_id == args.ind_slave_id,
            c.ind_stack == args.ind_stack,
            c.relay_stack == args.relay_stack,
            c.health_port == args.health_port,
            c.modbus_port == args.modbus_port,
            c.boards_dir@ == args.boards_dir@,
            c.relay_count == spec_total(defs@, 0),
            c.opto_channels == spec_total(defs@, 1),
            c.ma_in_channels == spec_total(defs@, 2),
            c.v_in_channels == spec_total(defs@, 3),
            c.od_channels == spec_total(defs@, 4),
            c.v_out_channels == spec_total(defs@, 5),
            c.ma_out_channels == spec_total(defs@, 6),
            c.relay_readback == (spec_has_megaind_def(defs@) && spec_total(defs@, 0) > 0),
            c.test_health && c.test_analog_inputs && c.test_relay_writes && c.test_od_outputs
                && c.test_analog_outputs && c.test_stability,
    {
        assert(spec_total(defs@, 0) <= u16::MAX);
        assert(spec_total(defs@, 1) <= u16::MAX);
        assert(spec_total(defs@, 2) <= u16::MAX);
        assert(spec_total(defs@, 3) <= u16::MAX);
        assert(spec_total(defs@, 4) <= u16::MAX);
        assert(spec_total(defs@, 5) <= u16::MAX);
        assert(spec_total(defs@, 6) <= u16::MAX);
        let relay_count = total(defs, 0);
        let opto_channels = total(defs, 1);
        let ma_in = total(defs, 2);
        let v_in = total(defs, 3);
        let od = total(defs, 4);
        let v_out = total(defs, 5);
        let ma_out = total(defs, 6);
        let has_megaind = has_megaind_def(defs);
        let label = join(board_names, " + ");
        let mode = if args.single_slave {
            "single-slave"
        } else {
            "multi-slave"
        };
        let mut name = label;
        name.append(" (");
        name.append(mode);
        name.append(")");
        let mut description = String::from_str("Dynamic scenario: ");
        description.append(decimal(board_names.len() as u64).as_str());
        description.append(" board(s), ");
        description.append(mode);
        description.append(" addressing");
        ScenarioConfig {
            name,
            description,
            boards: copy_strings(board_names),
            single_slave: args.single_slave,
            relay_slave_id: args.relay_slave_id,
            ind_slave_id: args.ind_slave_id,
            ind_stack: args.ind_stack,
            relay_stack: args.relay_stack,
            health_port: args.health_port,
            modbus_port: args.modbus_port,
            boards_dir: args.boards_dir.clone(),
            relay_count,
            opto_channels,
            ma_in_channels: ma_in,
            v_in_channels: v_in,
            od_channels: od,
            v_out_channels: v_out,
            ma_out_channels: ma_out,
            relay_readback: has_megaind && relay_count > 0,
            test_health: true,
            test_analog_inputs: true,
            test_relay_writes: true,
            test_od_outputs: true,
            test_analog_outputs: true,
            test_stability: true,
        }
    }

    /// The argument list for spawning the gateway: the binary, one
    /// `--board` per board, the ports, stacks and slave IDs, the
    /// single-slave flag when set, and the boards directory.
    pub fn gateway_args(&self, gateway_bin: &str) -> (args: Vec<String>)
        ensures
            strings_view(args@) == spec_gateway_args(*self, gateway_bin@),
    {
        let mut args: Vec<String> = Vec::new();
        push_str(&mut args, gateway_bin);
        let ghost head = strings_view(args@);
        let ghost bs = strings_view(self.boards@);
        let mut i: usize = 0;
        while i < self.boards.len()
            invariant
                i <= self.boards@.len(),
                bs == strings_view(self.boards@),
                strings_view(args@) == head + spec_board_args(bs.subrange(0, i as int)),
            decreases self.boards@.len() - i,
        {
            push_str(&mut args, "--board");
            push_str(&mut args, self.boards[i].as_str());
            proof {
                assert(bs.subrange(0, i + 1).drop_last() =~= bs.subrange(0, i as int));
                assert(bs.subrange(0, i + 1).last() == self.boards@[i as int]@);
                assert(strings_view(args@) =~= head + spec_board_args(bs.subrange(0, i + 1)));
            }
            i += 1;
        }
        proof {
            assert(bs.subrange(0, bs.len() as int) =~= bs);
        }
        let ghost mid = strings_view(args@);
        push_str(&mut args, "--port");
        push_num(&mut args, self.modbus_port as u64);
        push_str(&mut args, "--health-port");
        push_num(&mut args, self.health_port as u64);
        push_str(&mut args, "--ind-stack");
        push_num(&mut args, self.ind_stack as u64);
        push_str(&mut args, "--relay-stack");
        push_num(&mut args, self.relay_stack as u64);
        push_str(&mut args, "--relay-slave-id");
        push_num(&mut args, self.relay_slave_id as u64);
        push_str(&mut args, "--ind-slave-id");
        push_num(&mut args, self.ind_slave_id as u64);
        let ghost fixed = strings_view(args@);
        if self.single_slave {
            push_str(&mut args, "--single-slave");
        }
        let ghost flag = strings_view(args@);
        push_str(&mut args, "--boards-dir");
        push_str(&mut args, self.boards_dir.as_str());
        proof {
            assert(fixed =~= mid + seq![
                "--port"@,
                spec_decimal(self.modbus_port as nat),
                "--health-port"@,
                spec_decimal(self.health_port as nat),
                "--ind-stack"@,
                spec_decimal(self.ind_stack as nat),
                "--relay-stack"@,
                spec_decimal(self.relay_stack as nat),
                "--relay-slave-id"@,
                spec_decimal(self.relay_slave_id as nat),
                "--ind-slave-id"@,
                spec_decimal(self.ind_slave_id as nat),
            ]);
            assert(flag =~= fixed + (if self.single_slave {
                seq!["--single-slave"@]
            } else {
                Seq::empty()
            }));
            assert(strings_view(args@) =~= spec_gateway_args(*self, gateway_bin@));
        }
        args
    }

    /// Whether the scenario includes the board `megaind`.
    pub fn has_megaind(&self) -> (b: bool)
        ensures
            b == exists|i: int| 0 <= i < self.boards@.len() && #[trigger] self.boards@[i]@ == "megaind"@,
    {
        let target = String::from_str("megaind");
        let mut i: usize = 0;
        while i < self.boards.len()
            invariant
                target@ == "megaind"@,
                i <= self.boards@.len(),
                forall|j: int| 0 <= j < i ==> #[trigger] self.boards@[j]@ != "megaind"@,
            decreases self.boards@.len() - i,
        {
            if self.boards[i] == target {
                return true;
            }
            i += 1;
        }
        false
    }
}

/// A board available for selection.
#[derive(Debug)]
pub struct AvailableBoard {
    /// Short name from the file name (e.g. `megaind`).
    pub slug: String,
    /// Human-readable name from the definition.
    pub display_name: String,
    /// Path of the TOML file.
    pub path: String,
    /// The parsed definition.
    pub def: BoardDef,
}

impl Ranked for AvailableBoard {
    open spec fn ranks_before(&self, other: &Self) -> bool {
        spec_text_less(self.slug@, other.slug@)
    }

    fn listed_first(&self, other: &Self) -> (b: bool) {
        text_less(self.slug.as_str(), other.slug.as_str())
    }

    proof fn lemma_ranking(a: &Self, b: &Self, c: &Self) {
        lemma_text_less_asym(a.slug@, b.slug@);
        if !b.ranks_before(a) && !c.ranks_before(b) && c.ranks_before(a) {
            if a.slug@ != b.slug@ {
                lemma_text_less_total(a.slug@, b.slug@);
                if b.slug@ != c.slug@ {
                    lemma_text_less_total(b.slug@, c.slug@);
                    lemma_text_less_trans(a.slug@, b.slug@, c.slug@);
                    lemma_text_less_asym(c.slug@, a.slug@);
                } else {
                    lemma_text_less_asym(a.slug@, c.slug@);
                }
            }
        }
    }
}

/// The available boards listed by slug.
pub fn sort_available(boards: Vec<AvailableBoard>) -> (r: Vec<AvailableBoard>)
    ensures
        r@.to_multiset() == boards@.to_multiset(),
        spec_ranked(r@),
{
    sort_ranked(boards)
}

/// A requested board that no available board matches.
#[derive(Debug)]
pub struct BoardNotFound {
    /// The requested name.
    pub name: String,
    /// The slugs of the available boards, in order.
    pub available: Vec<String>,
}

/// The text of a [`BoardNotFound`].
pub open spec fn spec_not_found_message(name: Seq<char>, available: Seq<Seq<char>>) -> Seq<char> {
    "board "@ + spec_debug_str(name) + " not found in boards directory. Available: "@ + spec_join(
        available,
        ", "@,
    )
}

impl BoardNotFound {
    /// `board "<name>" not found in boards directory. Available: a, b`.
    pub fn message(&self) -> (m: String)
        ensures
            m@ == spec_not_found_message(self.name@, strings_view(self.available@)),
    {
        let mut m = String::from_str("board ");
        m.append(debug_str(self.name.as_str()).as_str());
        m.append(" not found in boards directory. Available: ");
        m.append(join(self.available.as_slice(), ", ").as_str());
        m
    }
}

/// Whether some available board has the slug `name`.
pub open spec fn spec_is_available(available: Seq<AvailableBoard>, name: Seq<char>) -> bool {
    exists|j: int| 0 <= j < available.len() && #[trigger] available[j].slug@ == name
}

/// Whether `d` is a copy of the definition of the first available board
/// whose slug is `name`.
pub open spec fn spec_resolved(available: Seq<AvailableBoard>, name: Seq<char>, d: BoardDef) -> bool {
    exists|j: int|
        0 <= j < available.len() && available[j].slug@ == name && same_def(d, #[trigger] available[j].def)
            && forall|l: int| 0 <= l < j ==> available[l].slug@ != name
}

/// Slugs of the available boards.
pub open spec fn spec_slugs(available: Seq<AvailableBoard>) -> Seq<Seq<char>> {
    available.map_values(|b: AvailableBoard| b.slug@)
}

fn find_board(available: &[AvailableBoard], name: &String) -> (r: Option<usize>)
    ensures
        match r {
            Some(j) => j < available@.len() && available@[j as int].slug@ == name@ && forall|k: int|
                0 <= k < j ==> #[trigger] available@[k].slug@ != name@,
            None => forall|k: int| 0 <= k < available@.len() ==> #[trigger] available@[k].slug@ != name@,
        },
{
    let mut i: usize = 0;
    while i < available.len()
        invariant
            i <= available@.len(),
            forall|k: int| 0 <= k < i ==> #[trigger] available@[k].slug@ != name@,
        decreases available@.len() - i,
    {
        if available[i].slug == *name {
            return Some(i);
        }
        i += 1;
    }
    None
}

fn slugs(available: &[AvailableBoard]) -> (v: Vec<String>)
    ensures
        strings_view(v@) == spec_slugs(available@),
{
    let mut v: Vec<String> = Vec::new();
    let mut i: usize = 0;
    while i < available.len()
        invariant
            i <= available@.len(),
            strings_view(v@) == spec_slugs(available@.subrange(0, i as int)),
        decreases available@.len() - i,
    {
        let ghost before = v@;
        v.push(available[i].slug.clone());
        proof {
            assert(strings_view(v@) =~= strings_view(before).push(available@[i as int].slug@));
            assert(spec_slugs(available@.subrange(0, i + 1)) =~= spec_slugs(
                available@.subrange(0, i as int),
            ).push(available@[i as int].slug@));
        }
        i += 1;
    }
    proof {
        assert(available@.subrange(0, available@.len() as int) =~= available@);
    }
    v
}

/// Resolve the requested board names against the available boards.
///
/// Succeeds when every requested name is the slug of an available board,
/// with the names and a copy of each matching (first) board's definition,
/// in request order; otherwise fails on the first name that matches none,
/// listing the available slugs.
pub fn resolve_boards(requested: &[String], available: &[AvailableBoard]) -> (r: Result<
    (Vec<String>, Vec<BoardDef>),
    BoardNotFound,
>)
    ensures
        match r {
            Ok((names, defs)) => {
                &&& names@.len() == requested@.len()
                &&& defs@.len() == requested@.len()
                &&& forall|k: int| 0 <= k < requested@.len() ==> #[trigger] names@[k]@ == requested@[k]@
                &&& forall|k: int|
                    0 <= k < requested@.len() ==> spec_resolved(available@, requested@[k]@, #[trigger] defs@[k])
            },
            Err(e) => exists|k: int|
                0 <= k < requested@.len() && e.name@ == requested@[k]@ && (forall|j: int|
                    0 <= j < available@.len() ==> #[trigger] available@[j].slug@ != requested@[k]@)
                    && forall|m: int| 0 <= m < k ==> #[trigger] spec_is_available(available@, requested@[m]@),
        },
        r matches Err(e) ==> strings_view(e.available@) == spec_slugs(available@),
{
    let mut names: Vec<String> = Vec::new();
    let mut defs: Vec<BoardDef> = Vec::new();
    let mut k: usize = 0;
    while k < requested.len()
        invariant
            k <= requested@.len(),
            names@.len() == k,
            defs@.len() == k,
            forall|m: int| 0 <= m < k ==> #[trigger] names@[m]@ == requested@[m]@,
            forall|m: int| 0 <= m < k ==> spec_resolved(available@, requested@[m]@, #[trigger] defs@[m]),
        decreases requested@.len() - k,
    {
        match find_board(available, &requested[k]) {
            Some(j) => {
                let ghost before_defs = defs@;
                let ghost before_names = names@;
                names.push(available[j].slug.clone());
                defs.push(available[j].def.duplicate());
                proof {
                    assert forall|m: int| 0 <= m < k + 1 implies #[trigger] names@[m]@
                        == requested@[m]@ by {
                        if m < k {
                            assert(names@[m] == before_names[m]);
                        }
                    }
                    assert forall|m: int| 0 <= m < k + 1 implies spec_resolved(
                        available@,
                        requested@[m]@,
                        #[trigger] defs@[m],
                    ) by {
                        if m < k {
                            assert(defs@[m] == before_defs[m]);
                        } else {
                            assert(same_def(defs@[m], available@[j as int].def));
                            assert(available@[j as int].slug@ == requested@[m]@);
                        }
                    }
                }
            },
            None => {
                let e = BoardNotFound { name: requested[k].clone(), available: slugs(available) };
                proof {
                    assert forall|m: int| 0 <= m < k implies #[trigger] spec_is_available(available@, requested@[m]@) by {
                        assert(spec_resolved(available@, requested@[m]@, defs@[m]));
                        let j = choose|j: int|
                            0 <= j < available@.len() && available@[j].slug@ == requested@[m]@
                                && same_def(defs@[m], #[trigger] available@[j].def) && forall|l: int|
                                0 <= l < j ==> available@[l].slug@ != requested@[m]@;
                        assert(available@[j].slug@ == requested@[m]@);
                    }
                }
                return Err(e);
            },
        }
        k += 1;
    }
    Ok((names, defs))
}

// ── Interactive choice ───────────────────────────────────────────────

/// `"<n><suffix>"` for a set count, nothing otherwise.
pub open spec fn spec_picker_cap(o: Option<usize>, suffix: Seq<char>) -> Seq<Seq<char>> {
    match o {
        Some(n) => seq![spec_decimal(n as nat) + suffix],
        None => Seq::empty(),
    }
}

/// The capability items the picker shows for a board, in a fixed order.
pub open spec fn spec_picker_caps(ch: ChannelConfig) -> Seq<Seq<char>> {
    spec_picker_cap(ch.relays, " relays"@) + spec_picker_cap(ch.opto_inputs, " opto"@)
        + spec_picker_cap(ch.analog_4_20ma_inputs, "× 4-20mA in"@) + spec_picker_cap(
        ch.analog_0_10v_inputs,
        "× 0-10V in"@,
    ) + spec_picker_cap(ch.od_outputs, " OD out"@) + spec_picker_cap(
        ch.analog_0_10v_outputs,
        "× 0-10V out"@,
    ) + spec_picker_cap(ch.analog_4_20ma_outputs, "× 4-20mA out"@)
}

/// The picker line of board `b`, numbered `i + 1`.
pub open spec fn spec_picker_line(i: nat, b: AvailableBoard) -> Seq<char> {
    let caps = spec_picker_caps(b.def.channels);
    "    "@ + spec_decimal(i + 1) + ". "@ + b.slug@ + " — "@ + b.display_name@ + if caps.len() == 0 {
        Seq::empty()
    } else {
        "  ("@ + spec_join(caps, ", "@) + ")"@
    }
}

fn push_picker_cap(items: &mut Vec<String>, o: Option<usize>, suffix: &str)
    ensures
        strings_view(final(items)@) == strings_view(old(items)@) + spec_picker_cap(o, suffix@),
{
    let ghost before = items@;
    match o {
        Some(n) => {
            let mut t = decimal(n as u64);
            t.append(suffix);
            items.push(t);
            proof {
                assert(strings_view(items@) =~= strings_view(before) + spec_picker_cap(o, suffix@));
            }
        },
        None => {
            proof {
                assert(strings_view(items@) =~= strings_view(before) + spec_picker_cap(o, suffix@));
            }
        },
    }
}

fn picker_line(i: usize, b: &AvailableBoard) -> (line: String)
    requires
        i < usize::MAX,
    ensures
        line@ == spec_picker_line(i as nat, *b),
{
    let ch = &b.def.channels;
    let mut caps: Vec<String> = Vec::new();
    proof {
        assert(strings_view(caps@) =~= Seq::empty());
    }
    push_picker_cap(&mut caps, ch.relays, " relays");
    push_picker_cap(&mut caps, ch.opto_inputs, " opto");
    push_picker_cap(&mut caps, ch.analog_4_20ma_inputs, "× 4-20mA in");
    push_picker_cap(&mut caps, ch.analog_0_10v_inputs, "× 0-10V in");
    push_picker_cap(&mut caps, ch.od_outputs, " OD out");
    push_picker_cap(&mut caps, ch.analog_0_10v_outputs, "× 0-10V out");
    push_picker_cap(&mut caps, ch.analog_4_20ma_outputs, "× 4-20mA out");
    assert(strings_view(caps@) =~= spec_picker_caps(b.def.channels));
    let mut line = String::from_str("    ");
    let num = decimal((i + 1) as u64);
    line.append(num.as_str());
    line.append(". ");
    line.append(b.slug.as_str());
    line.append(" — ");
    line.append(b.display_name.as_str());
    if caps.len() > 0 {
        line.append("  (");
        let body = join(caps.as_slice(), ", ");
        line.append(body.as_str());
        line.append(")");
    }
    line
}

/// The lines of the interactive picker: one per board, numbered from 1,
/// with a summary of its channels.
pub fn picker_lines(available: &[AvailableBoard]) -> (lines: Vec<String>)
    ensures
        strings_view(lines@) == Seq::new(
            available@.len(),
            |i: int| spec_picker_line(i as nat, available@[i]),
        ),
{
    let mut lines: Vec<String> = Vec::new();
    let mut i: usize = 0;
    while i < available.len()
        invariant
            i <= available@.len(),
            strings_view(lines@) == Seq::new(
                i as nat,
                |k: int| spec_picker_line(k as nat, available@[k]),
            ),
        decreases available@.len() - i,
    {
        let ghost before = lines@;
        let line = picker_line(i, &available[i]);
        assert(strings_view(before).len() == before.len());
        lines.push(line);
        proof {
            assert(lines@ == before.push(line));
            let want = Seq::new((i + 1) as nat, |k: int| spec_picker_line(k as nat, available@[k]));
            assert forall|k: int| 0 <= k < i + 1 implies #[trigger] strings_view(lines@)[k]
                == want[k] by {
                if k < i {
                    assert(lines@[k] == before[k]);
                    assert(strings_view(lines@)[k] == lines@[k]@);
                    assert(strings_view(before)[k] == before[k]@);
                    assert(strings_view(before)[k] == spec_picker_line(k as nat, available@[k]));
                } else {
                    assert(strings_view(lines@)[k] == lines@[k]@);
                    assert(lines@[k]@ == spec_picker_line(i as nat, available@[i as int]));
                }
            }
            assert(strings_view(lines@) =~= want);
        }
        i += 1;
    }
    lines
}

/// A choice the picker refuses.
#[derive(Debug, Clone, PartialEq, Eq)]
pub enum SelectionError {
    /// A token that is not a number.
    Invalid { token: String },
    /// A number outside `1..=count`.
    OutOfRange { index: usize, count: usize },
    /// Nothing chosen.
    NoneSelected,
}

/// Abstract value of a [`SelectionError`].
pub enum SelectionErrorView {
    Invalid { token: Seq<char> },
    OutOfRange { index: nat, count: nat },
    NoneSelected,
}

impl View for SelectionError {
    type V = SelectionErrorView;

    open spec fn view(&self) -> SelectionErrorView {
        match self {
            SelectionError::Invalid { token } => SelectionErrorView::Invalid { token: token@ },
            SelectionError::OutOfRange { index, count } => SelectionErrorView::OutOfRange {
                index: *index as nat,
                count: *count as nat,
            },
            SelectionError::NoneSelected => SelectionErrorView::NoneSelected,
        }
    }
}

/// The text of a refused choice.
pub open spec fn spec_selection_message(e: SelectionErrorView) -> Seq<char> {
    match e {
        SelectionErrorView::Invalid { token } => "invalid selection: "@ + spec_debug_str(token),
        SelectionErrorView::OutOfRange { index, count } => "selection out of range: "@
            + spec_decimal(index) + " (1-"@ + spec_decimal(count) + ")"@,
        SelectionErrorView::NoneSelected => "no boards selected"@,
    }
}

impl SelectionError {
    /// The error's text, e.g. `selection out of range: 4 (1-3)`.
    pub fn message(&self) -> (m: String)
        ensures
            m@ == spec_selection_message(self@),
    {
        match self {
            SelectionError::Invalid { token } => {
                let mut m = String::from_str("invalid selection: ");
                let q = debug_str(token.as_str());
                m.append(q.as_str());
                m
            },
            SelectionError::OutOfRange { index, count } => {
                let mut m = String::from_str("selection out of range: ");
                let a = decimal(*index as u64);
                m.append(a.as_str());
                m.append(" (1-");
                let b = decimal(*count as u64);
                m.append(b.as_str());
                m.append(")");
                m
            },
            SelectionError::NoneSelected => String::from_str("no boards selected"),
        }
    }
}

/// The chosen board numbers of the first `k` comma-separated tokens of a
/// choice among `count` boards, or the first refusal: tokens are trimmed,
/// empty ones skipped, and each other must be a number in `1..=count`.
pub open spec fn spec_choice(tokens: Seq<Seq<char>>, count: nat) -> Result<
    Seq<nat>,
    SelectionErrorView,
>
    decreases tokens.len(),
{
    if tokens.len() == 0 {
        Ok(Seq::empty())
    } else {
        match spec_choice(tokens.drop_last(), count) {
            Err(e) => Err(e),
            Ok(v) => {
                let t = spec_trim(tokens.last());
                if t.len() == 0 {
                    Ok(v)
                } else {
                    match spec_parse_uint(t, usize::MAX as nat) {
                        None => Err(SelectionErrorView::Invalid { token: t }),
                        Some(idx) => if idx == 0 || idx > count {
                            Err(SelectionErrorView::OutOfRange { index: idx, count })
                        } else {
                            Ok(v.push(idx))
                        },
                    }
                }
            },
        }
    }
}

proof fn lemma_choice_error_stays(tokens: Seq<Seq<char>>, count: nat, j: int)
    requires
        0 <= j <= tokens.len(),
        spec_choice(tokens.subrange(0, j), count) is Err,
    ensures
        spec_choice(tokens, count) == spec_choice(tokens.subrange(0, j), count),
    decreases tokens.len() - j,
{
    if j == tokens.len() {
        assert(tokens.subrange(0, j) =~= tokens);
    } else {
        assert(tokens.subrange(0, j + 1).drop_last() =~= tokens.subrange(0, j));
        lemma_choice_error_stays(tokens, count, j + 1);
    }
}

/// The outcome of a typed choice `input` among `count` boards.
pub open spec fn spec_selection(input: Seq<char>, count: nat) -> Result<Seq<nat>, SelectionErrorView> {
    match spec_choice(spec_split(spec_trim(input), ','), count) {
        Err(e) => Err(e),
        Ok(v) => if v.len() == 0 {
            Err(SelectionErrorView::NoneSelected)
        } else {
            Ok(v)
        },
    }
}

/// Choice `j` names and defines the board it numbers.
pub open spec fn spec_picked_at(
    names: Seq<String>,
    defs: Seq<BoardDef>,
    chosen: Seq<nat>,
    available: Seq<AvailableBoard>,
    j: int,
) -> bool {
    &&& 1 <= chosen[j] <= available.len()
    &&& names[j]@ == available[chosen[j] - 1].slug@
    &&& same_def(defs[j], available[chosen[j] - 1].def)
}

/// Every choice names and defines the board it numbers.
pub open spec fn spec_picked(
    names: Seq<String>,
    defs: Seq<BoardDef>,
    chosen: Seq<nat>,
    available: Seq<AvailableBoard>,
) -> bool {
    forall|j: int| 0 <= j < chosen.len() ==> #[trigger] spec_picked_at(names, defs, chosen, available, j)
}

/// Parse the picker's answer `input` (comma-separated numbers, e.g.
/// `1,2`) into the chosen boards' slugs and definitions, in the order
/// typed.
pub fn parse_selection(input: &str, available: &[AvailableBoard]) -> (r: Result<
    (Vec<String>, Vec<BoardDef>),
    SelectionError,
>)
    ensures
        match (r, spec_selection(input@, available@.len())) {
            (Ok((names, defs)), Ok(v)) => {
                &&& names@.len() == v.len()
                &&& defs@.len() == v.len()
                &&& forall|k: int|
                    0 <= k < v.len() ==> #[trigger] names@[k]@ == available@[v[k] - 1].slug@
                        && same_def(defs@[k], available@[v[k] - 1].def)
            },
            (Err(e), Err(ev)) => e@ == ev,
            _ => false,
        },
{
    let t = trim(input);
    let tokens = split_char(t.as_str(), ',');
    let ghost toks = strings_view(tokens@);
    let mut names: Vec<String> = Vec::new();
    let mut defs: Vec<BoardDef> = Vec::new();
    let ghost mut chosen: Seq<nat> = Seq::empty();
    let mut k: usize = 0;
    while k < tokens.len()
        invariant
            k <= tokens@.len(),
            toks == strings_view(tokens@),
            toks == spec_split(spec_trim(input@), ','),
            spec_choice(toks.subrange(0, k as int), available@.len()) == Ok::<
                Seq<nat>,
                SelectionErrorView,
            >(chosen),
            names@.len() == chosen.len(),
            defs@.len() == chosen.len(),
            spec_picked(names@, defs@, chosen, available@),
        decreases tokens@.len() - k,
    {
        proof {
            assert(toks.subrange(0, k + 1).drop_last() =~= toks.subrange(0, k as int));
            assert(toks.subrange(0, k + 1).last() == tokens@[k as int]@);
        }
        let token = trim(tokens[k].as_str());
        if token.unicode_len() > 0 {
            match parse_uint(token.as_str(), usize::MAX as u64) {
                None => {
                    proof {
                        lemma_choice_error_stays(toks, available@.len(), k + 1);
                    }
                    return Err(SelectionError::Invalid { token });
                },
                Some(n) => {
                    let idx = n as usize;
                    if idx == 0 || idx > available.len() {
                        proof {
                            lemma_choice_error_stays(toks, available@.len(), k + 1);
                        }
                        return Err(SelectionError::OutOfRange { index: idx, count: available.len() });
                    }
                    let b = &available[idx - 1];
                    let ghost old_names = names@;
                    let ghost old_defs = defs@;
                    let slug = b.slug.clone();
                    let def = b.def.duplicate();
                    assert(slug@ == available@[idx - 1].slug@);
                    assert(same_def(def, available@[idx - 1].def));
                    names.push(slug);
                    defs.push(def);
                    proof {
                        let old_chosen = chosen;
                        chosen = chosen.push(idx as nat);
                        assert forall|j: int| 0 <= j < chosen.len() implies spec_picked_at(
                            names@,
                            defs@,
                            chosen,
                            available@,
                            j,
                        ) by {
                            assert(spec_picked_at(old_names, old_defs, old_chosen, available@, j)
                                || j >= old_chosen.len());
                            if j < old_chosen.len() {
                                assert(names@[j] == old_names[j]);
                                assert(defs@[j] == old_defs[j]);
                                assert(chosen[j] == old_chosen[j]);
                                assert(old_names[j]@ == available@[old_chosen[j] - 1].slug@);
                            } else {
                                assert(chosen[j] == idx);
                                assert(names@[j] == slug);
                                assert(defs@[j] == def);
                            }
                        }
                    }
                },
            }
        }
        k += 1;
    }
    proof {
        assert(toks.subrange(0, k as int) =~= toks);
    }
    if names.len() == 0 {
        return Err(SelectionError::NoneSelected);
    }
    proof {
        assert forall|j: int| 0 <= j < chosen.len() implies #[trigger] names@[j]@
            == available@[chosen[j] - 1].slug@ && same_def(defs@[j], available@[chosen[j] - 1].def) by {
            assert(spec_picked_at(names@, defs@, chosen, available@, j));
        }
    }
    Ok((names, defs))
}

} // verus!
