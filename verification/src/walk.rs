//! The walk over a device's Sunspec blocks as a state machine: it says which registers
//! to read and which model definitions to fetch, and decides from what comes back.
use vstd::prelude::*;
use crate::deviceinfo::{mod1_strings, info_strings, parse_mod1, DeviceInfo};
use crate::model::{IntOrString, Module};
use crate::sunspec::{
    block_of, definition_fits, devices_before, notes_before, process_block, scan_offset, Block,
    CollectError, DiscoveredDevice, Note, Output,
};

verus! {

/// The first two registers of a Sunspec device: "SunS".
pub open spec fn sunspec_magic() -> Seq<u16> {
    seq![0x5375u16, 0x6e53u16]
}

/// How many registers one read of a block's values asks for.
pub open spec fn chunk_size(len: u16) -> u16 {
    if len < 100 {
        len
    } else {
        100
    }
}

/// The first cached definition for a module id.
pub open spec fn cache_lookup(ids: Seq<u16>, id: u16) -> Option<int>
    decreases ids.len(),
{
    if ids.len() == 0 {
        None
    } else {
        match cache_lookup(ids.drop_last(), id) {
            Some(i) => Some(i),
            None => if ids.last() == id {
                Some(ids.len() - 1)
            } else {
                None
            },
        }
    }
}

/// Where the walk stands.
#[derive(Debug)]
pub enum Phase {
    /// The magic registers were asked for.
    Magic,
    /// The header (module id and length) at `haddr` was asked for.
    Header,
    /// The definition of a module was asked for.
    Definition { module_id: u16, len: u16 },
    /// The chunk of values at offset `next` was asked for; `values` holds the earlier chunks.
    Values { module_id: u16, len: u16, def: usize, values: Vec<u16>, next: u16 },
    /// The walk ended.
    Finished,
}

/// The walk over the blocks of one device, starting at `base_addr`.
#[derive(Debug)]
pub struct Collector {
    pub device_id: u8,
    pub base_addr: u16,
    pub haddr: u16,
    pub phase: Phase,
    pub cache_ids: Vec<u16>,
    pub cache: Vec<Module>,
    pub devices: Vec<DiscoveredDevice>,
    pub blocks: Vec<Block>,
    pub device_info: DeviceInfo,
}

/// What came back from the outside work that an [`Action`] asked for.
#[derive(Debug)]
pub enum Event {
    Registers(Vec<u16>),
    Definition(Module),
}

/// What the walk asks for next, or how it ended.
#[derive(Debug)]
pub enum Action {
    Read { addr: u16, count: u16 },
    Fetch { module_id: u16 },
    Finished(Output),
    Failed(CollectError),
}

impl Collector {
    /// The collector's parts agree: one id per cached definition, and a pending chunk
    /// lies inside its block.
    pub open spec fn wf(&self) -> bool {
        &&& self.cache_ids@.len() == self.cache@.len()
        &&& forall|i: int, j: int|
            0 <= i < j < self.cache_ids@.len() ==> self.cache_ids@[i] != self.cache_ids@[j]
        &&& match self.phase {
            Phase::Values { len, def, next, .. } => def < self.cache@.len() && next < len
                && self.haddr >= self.base_addr + 2,
            Phase::Definition { module_id, .. } => self.haddr >= self.base_addr + 2
                && cache_lookup(self.cache_ids@, module_id) is None,
            Phase::Header => self.haddr >= self.base_addr + 2,
            _ => true,
        }
    }
}

/// The walk ended with error `e`.
pub open spec fn failed_with(d: Collector, a: Action, e: CollectError) -> bool {
    d.phase is Finished && a == Action::Failed(e)
}

/// The walk asks for the header at `haddr`, keeping what it collected.
pub open spec fn reads_header(c: Collector, d: Collector, haddr: u16, a: Action) -> bool {
    &&& d.phase is Header
    &&& d.haddr == haddr
    &&& a == Action::Read { addr: haddr, count: 2 }
    &&& d.devices == c.devices
    &&& d.blocks == c.blocks
    &&& d.device_info == c.device_info
    &&& d.cache == c.cache
    &&& d.cache_ids == c.cache_ids
}

/// The walk completed the block of `module_id` (`len` registers at `c.haddr`) from
/// cached definition `i` and the values `vals`; `notes` is its log.
pub open spec fn completes_block(
    c: Collector,
    d: Collector,
    module_id: u16,
    len: u16,
    i: int,
    vals: Seq<u16>,
    a: Action,
    notes: Seq<Note>,
) -> bool {
    let def = c.cache@[i];
    let ps = def.group.points@;
    if !definition_fits(def, module_id) {
        failed_with(d, a, CollectError::BadDefinition)
    } else {
        match scan_offset(ps, vals.len(), c.haddr, ps.len() as int) {
            Err(e) => failed_with(d, a, e),
            Ok(_) => {
                &&& notes == notes_before(ps, vals.len(), c.haddr, ps.len() as int)
                &&& if c.haddr + 2 + len > 0xFFFF {
                    failed_with(d, a, CollectError::AddressOverflow)
                } else {
                    let b = d.blocks@.last();
                    &&& d.phase is Header
                    &&& d.haddr == c.haddr + 2 + len
                    &&& a == Action::Read { addr: d.haddr, count: 2 }
                    &&& d.cache == c.cache
                    &&& d.cache_ids == c.cache_ids
                    &&& d.blocks@.len() == c.blocks@.len() + 1
                    &&& d.blocks@.drop_last() == c.blocks@
                    &&& block_of(b, def, c.haddr, vals, c.device_id)
                    &&& d.devices@ == c.devices@ + devices_before(ps, vals, c.haddr, module_id, ps.len() as int)
                    &&& b.device_info == d.device_info
                    &&& if module_id == 1 && mod1_strings(b.fields@) is Some {
                        mod1_strings(b.fields@) == Some(info_strings(d.device_info))
                    } else {
                        d.device_info == c.device_info
                    }
                }
            },
        }
    }
}

/// The walk starts reading the `len` values of the block of `module_id` at `c.haddr + 2`,
/// with cached definition `i`; a block without values completes at once.
pub open spec fn begins_values(
    c: Collector,
    d: Collector,
    module_id: u16,
    len: u16,
    i: int,
    a: Action,
    notes: Seq<Note>,
) -> bool {
    if len == 0 {
        completes_block(c, d, module_id, len, i, Seq::empty(), a, notes)
    } else if c.haddr + 2 > 0xFFFF {
        failed_with(d, a, CollectError::AddressOverflow) && notes == Seq::<Note>::empty()
    } else {
        &&& notes == Seq::<Note>::empty()
        &&& a == Action::Read { addr: (c.haddr + 2) as u16, count: chunk_size(len) }
        &&& d.phase matches Phase::Values { module_id: m, len: l, def, values, next }
            && m == module_id && l == len && def == i && values@ == Seq::<u16>::empty() && next == 0
        &&& d.haddr == c.haddr
        &&& d.devices == c.devices
        &&& d.blocks == c.blocks
        &&& d.device_info == c.device_info
        &&& d.cache == c.cache
        &&& d.cache_ids == c.cache_ids
    }
}

/// One step of the walk: from collector `c` and event `ev` to collector `d`, action `a`
/// and log `notes`.
pub open spec fn walk_step(c: Collector, ev: Event, d: Collector, a: Action, notes: Seq<Note>) -> bool {
    match (c.phase, ev) {
        (Phase::Magic, Event::Registers(regs)) => if regs@ != sunspec_magic() {
            failed_with(d, a, CollectError::BadMagic) && notes == Seq::<Note>::empty()
        } else if c.base_addr + 2 > 0xFFFF {
            failed_with(d, a, CollectError::AddressOverflow) && notes == Seq::<Note>::empty()
        } else {
            reads_header(c, d, (c.base_addr + 2) as u16, a) && notes == Seq::<Note>::empty()
        },
        (Phase::Header, Event::Registers(regs)) => if regs@.len() < 2 {
            failed_with(d, a, CollectError::ShortRead) && notes == Seq::<Note>::empty()
        } else if regs@[0] == 0xFFFF {
            &&& notes == Seq::<Note>::empty()
            &&& if c.haddr + 1 > 0xFFFF {
                failed_with(d, a, CollectError::AddressOverflow)
            } else {
                &&& d.phase is Finished
                &&& a matches Action::Finished(out) && out.devices == c.devices && out.blocks == c.blocks
                    && out.len == c.haddr + 1 - c.base_addr
            }
        } else {
            let module_id = regs@[0];
            let len = regs@[1];
            let head = Note::Block { addr: c.haddr, module_id, len };
            match cache_lookup(c.cache_ids@, module_id) {
                Some(i) => notes.len() > 0 && notes[0] == head && begins_values(
                    c,
                    d,
                    module_id,
                    len,
                    i,
                    a,
                    notes.drop_first(),
                ),
                None => {
                    &&& notes == seq![head]
                    &&& a == Action::Fetch { module_id }
                    &&& d.phase == Phase::Definition { module_id, len }
                    &&& d.haddr == c.haddr
                    &&& d.devices == c.devices
                    &&& d.blocks == c.blocks
                    &&& d.device_info == c.device_info
                    &&& d.cache == c.cache
                    &&& d.cache_ids == c.cache_ids
                },
            }
        },
        (Phase::Definition { module_id, len }, Event::Definition(def)) => {
            let i = c.cache@.len() as int;
            exists|c2: Collector|
                {
                    &&& c2.haddr == c.haddr
                    &&& c2.device_id == c.device_id
                    &&& c2.base_addr == c.base_addr
                    &&& c2.devices == c.devices
                    &&& c2.blocks == c.blocks
                    &&& c2.device_info == c.device_info
                    &&& c2.cache@ == c.cache@.push(def)
                    &&& c2.cache_ids@ == c.cache_ids@.push(module_id)
                    &&& begins_values(c2, d, module_id, len, i, a, notes)
                }
        },
        (Phase::Values { module_id, len, def, values, next }, Event::Registers(regs)) => {
            let vals = values@ + regs@;
            if next + 100 > 0xFFFF {
                failed_with(d, a, CollectError::AddressOverflow) && notes == Seq::<Note>::empty()
            } else if next + 100 < len {
                if c.haddr + 2 + next + 100 > 0xFFFF {
                    failed_with(d, a, CollectError::AddressOverflow) && notes == Seq::<Note>::empty()
                } else {
                    &&& notes == Seq::<Note>::empty()
                    &&& a == Action::Read { addr: (c.haddr + 2 + next + 100) as u16, count: chunk_size(len) }
                    &&& d.phase matches Phase::Values { module_id: m, len: l, def: i, values: v, next: x }
                        && m == module_id && l == len && i == def && v@ == vals && x == next + 100
                    &&& d.haddr == c.haddr
                    &&& d.devices == c.devices
                    &&& d.blocks == c.blocks
                    &&& d.device_info == c.device_info
                    &&& d.cache == c.cache
                    &&& d.cache_ids == c.cache_ids
                }
            } else {
                completes_block(c, d, module_id, len, def as int, vals, a, notes)
            }
        },
        _ => failed_with(d, a, CollectError::OutOfOrder) && notes == Seq::<Note>::empty(),
    }
}


proof fn lemma_lookup_prefix(ids: Seq<u16>, id: u16, j: int)
    requires
        0 <= j <= ids.len(),
        cache_lookup(ids.take(j), id) is Some,
    ensures
        cache_lookup(ids, id) == cache_lookup(ids.take(j), id),
    decreases ids.len(),
{
    if j == ids.len() {
        assert(ids.take(j) =~= ids);
    } else {
        assert(ids.drop_last().take(j) =~= ids.take(j));
        lemma_lookup_prefix(ids.drop_last(), id, j);
    }
}

proof fn lemma_lookup_none(ids: Seq<u16>, id: u16)
    ensures
        cache_lookup(ids, id) is None <==> forall|i: int| 0 <= i < ids.len() ==> ids[i] != id,
    decreases ids.len(),
{
    if ids.len() > 0 {
        lemma_lookup_none(ids.drop_last(), id);
        if cache_lookup(ids, id) is None {
            assert forall|i: int| 0 <= i < ids.len() implies ids[i] != id by {
                if i < ids.len() - 1 {
                    assert(ids[i] == ids.drop_last()[i]);
                }
            }
        } else {
            if cache_lookup(ids.drop_last(), id) is Some {
                let i = choose|i: int| 0 <= i < ids.drop_last().len() && ids.drop_last()[i] == id;
                assert(ids[i] == id);
            } else {
                assert(ids[ids.len() - 1] == id);
            }
        }
    }
}

proof fn lemma_lookup_bound(ids: Seq<u16>, id: u16)
    ensures
        cache_lookup(ids, id) matches Some(i) ==> 0 <= i < ids.len(),
    decreases ids.len(),
{
    if ids.len() > 0 {
        lemma_lookup_bound(ids.drop_last(), id);
    }
}

/// The index of the first cached definition for `id`.
fn find_cached(ids: &Vec<u16>, id: u16) -> (r: Option<usize>)
    ensures
        r is None <==> cache_lookup(ids@, id) is None,
        r matches Some(i) ==> cache_lookup(ids@, id) == Some(i as int) && i < ids@.len(),
{
    let mut i: usize = 0;
    assert(ids@.take(0) =~= Seq::<u16>::empty());
    while i < ids.len()
        invariant
            i <= ids@.len(),
            cache_lookup(ids@.take(i as int), id) is None,
        decreases ids@.len() - i,
    {
        assert(ids@.take(i + 1).drop_last() =~= ids@.take(i as int));
        if ids[i] == id {
            proof {
                assert(cache_lookup(ids@.take(i + 1), id) == Some(i as int));
                lemma_lookup_prefix(ids@, id, i + 1);
            }
            return Some(i);
        }
        i = i + 1;
    }
    assert(ids@.take(ids@.len() as int) =~= ids@);
    None
}

proof fn lemma_completes_any_phase(
    c1: Collector,
    c2: Collector,
    d: Collector,
    module_id: u16,
    len: u16,
    i: int,
    vals: Seq<u16>,
    a: Action,
    notes: Seq<Note>,
)
    requires
        c1.device_id == c2.device_id,
        c1.haddr == c2.haddr,
        c1.cache == c2.cache,
        c1.cache_ids == c2.cache_ids,
        c1.devices == c2.devices,
        c1.blocks == c2.blocks,
        c1.device_info == c2.device_info,
        completes_block(c1, d, module_id, len, i, vals, a, notes),
    ensures
        completes_block(c2, d, module_id, len, i, vals, a, notes),
{
}

impl Collector {
    /// A walk over the blocks of device `device_id` from `base_addr`; it first asks for
    /// the two magic registers there.
    pub fn new(device_id: u8, base_addr: u16) -> (r: (Collector, Action))
        ensures
            r.0.wf(),
            r.0.device_id == device_id,
            r.0.base_addr == base_addr,
            r.0.haddr == base_addr,
            r.0.phase is Magic,
            r.0.cache@.len() == 0,
            r.0.devices@.len() == 0,
            r.0.blocks@.len() == 0,
            info_strings(r.0.device_info) == (Seq::<char>::empty(), Seq::<char>::empty(), Seq::<char>::empty(), Seq::<char>::empty()),
            r.1 == (Action::Read { addr: base_addr, count: 2 }),
    {
        let c = Collector {
            device_id,
            base_addr,
            haddr: base_addr,
            phase: Phase::Magic,
            cache_ids: Vec::new(),
            cache: Vec::new(),
            devices: Vec::new(),
            blocks: Vec::new(),
            device_info: DeviceInfo::default(),
        };
        (c, Action::Read { addr: base_addr, count: 2 })
    }

    fn fail(&mut self, e: CollectError) -> (r: (Action, Vec<Note>))
        requires
            old(self).wf(),
        ensures
            final(self).wf(),
            final(self).device_id == old(self).device_id,
            final(self).base_addr == old(self).base_addr,
            failed_with(*final(self), r.0, e),
            r.1@ == Seq::<Note>::empty(),
    {
        self.phase = Phase::Finished;
        (Action::Failed(e), Vec::new())
    }

    fn complete_block(&mut self, module_id: u16, len: u16, i: usize, values: Vec<u16>) -> (r: (Action, Vec<Note>))
        requires
            old(self).wf(),
            i < old(self).cache@.len(),
            old(self).haddr >= old(self).base_addr + 2,
        ensures
            final(self).wf(),
            final(self).device_id == old(self).device_id,
            final(self).base_addr == old(self).base_addr,
            completes_block(*old(self), *final(self), module_id, len, i as int, values@, r.0, r.1@),
    {
        let scanned = process_block(&self.cache[i], module_id, self.haddr, &values, self.device_id, &self.device_info);
        let scan = match scanned {
            Ok(s) => s,
            Err(e) => {
                return self.fail(e);
            },
        };
        let ghost c = *self;
        let mut block = scan.block;
        let mut devices = scan.devices;
        let notes = scan.notes;
        if module_id == 1 {
            match parse_mod1(block.fields.as_slice()) {
                Some(info) => {
                    block.device_info = info.copied();
                    self.device_info = info;
                },
                None => {},
            }
        }
        let ghost old_devices = self.devices@;
        self.devices.append(&mut devices);
        self.blocks.push(block);
        proof {
            assert(self.blocks@.drop_last() =~= c.blocks@);
        }
        if self.haddr as u32 + 2 + len as u32 > 0xFFFF {
            let (a, _) = self.fail(CollectError::AddressOverflow);
            return (a, notes);
        }
        self.haddr = self.haddr + 2 + len;
        self.phase = Phase::Header;
        (Action::Read { addr: self.haddr, count: 2 }, notes)
    }

    fn begin_values(&mut self, module_id: u16, len: u16, i: usize) -> (r: (Action, Vec<Note>))
        requires
            old(self).wf(),
            i < old(self).cache@.len(),
            old(self).haddr >= old(self).base_addr + 2,
        ensures
            final(self).wf(),
            final(self).device_id == old(self).device_id,
            final(self).base_addr == old(self).base_addr,
            begins_values(*old(self), *final(self), module_id, len, i as int, r.0, r.1@),
    {
        if len == 0 {
            return self.complete_block(module_id, len, i, Vec::new());
        }
        if self.haddr as u32 + 2 > 0xFFFF {
            return self.fail(CollectError::AddressOverflow);
        }
        let count: u16 = if len < 100 {
            len
        } else {
            100
        };
        self.phase = Phase::Values { module_id, len, def: i, values: Vec::new(), next: 0 };
        (Action::Read { addr: self.haddr + 2, count }, Vec::new())
    }

    /// Takes in what came back for the last action and says what to do next.
    pub fn step(&mut self, event: Event) -> (r: (Action, Vec<Note>))
        requires
            old(self).wf(),
        ensures
            final(self).wf(),
            final(self).device_id == old(self).device_id,
            final(self).base_addr == old(self).base_addr,
            walk_step(*old(self), event, *final(self), r.0, r.1@),
    {
        let mut phase = Phase::Finished;
        std::mem::swap(&mut phase, &mut self.phase);
        match phase {
            Phase::Magic => match event {
                Event::Registers(regs) => {
                    if !(regs.len() == 2 && regs[0] == 0x5375 && regs[1] == 0x6e53) {
                        proof {
                            if regs@ =~= sunspec_magic() {
                                assert(regs@[0] == 0x5375 && regs@[1] == 0x6e53);
                            }
                        }
                        return self.fail(CollectError::BadMagic);
                    }
                    assert(regs@ =~= sunspec_magic());
                    if self.base_addr as u32 + 2 > 0xFFFF {
                        return self.fail(CollectError::AddressOverflow);
                    }
                    self.haddr = self.base_addr + 2;
                    self.phase = Phase::Header;
                    (Action::Read { addr: self.haddr, count: 2 }, Vec::new())
                },
                Event::Definition(_) => self.fail(CollectError::OutOfOrder),
            },
            Phase::Header => match event {
                Event::Registers(regs) => {
                    if regs.len() < 2 {
                        return self.fail(CollectError::ShortRead);
                    }
                    let module_id = regs[0];
                    let len = regs[1];
                    if module_id == 0xffff {
                        if self.haddr as u32 + 1 > 0xFFFF {
                            return self.fail(CollectError::AddressOverflow);
                        }
                        let mut devices: Vec<DiscoveredDevice> = Vec::new();
                        let mut blocks: Vec<Block> = Vec::new();
                        std::mem::swap(&mut devices, &mut self.devices);
                        std::mem::swap(&mut blocks, &mut self.blocks);
                        let out = Output { devices, blocks, len: self.haddr + 1 - self.base_addr };
                        return (Action::Finished(out), Vec::new());
                    }
                    let head = Note::Block { addr: self.haddr, module_id, len };
                    match find_cached(&self.cache_ids, module_id) {
                        Some(i) => {
                            self.phase = Phase::Header;
                            assert(*self == *old(self));
                            let (a, rest) = self.begin_values(module_id, len, i);
                            let mut notes: Vec<Note> = Vec::new();
                            notes.push(head);
                            let mut rest = rest;
                            let ghost rest_view = rest@;
                            notes.append(&mut rest);
                            assert(notes@.drop_first() =~= rest_view);
                            (a, notes)
                        },
                        None => {
                            self.phase = Phase::Definition { module_id, len };
                            assert(cache_lookup(self.cache_ids@, module_id) is None);
                            let mut notes: Vec<Note> = Vec::new();
                            notes.push(head);
                            assert(notes@ =~= seq![head]);
                            (Action::Fetch { module_id }, notes)
                        },
                    }
                },
                Event::Definition(_) => self.fail(CollectError::OutOfOrder),
            },
            Phase::Definition { module_id, len } => match event {
                Event::Definition(def) => {
                    proof {
                        lemma_lookup_none(self.cache_ids@, module_id);
                    }
                    self.cache.push(def);
                    self.cache_ids.push(module_id);
                    assert(forall|i: int, j: int|
                        0 <= i < j < self.cache_ids@.len() ==> self.cache_ids@[i] != self.cache_ids@[j]);
                    let ghost mid = *self;
                    let i = self.cache.len() - 1;
                    let r = self.begin_values(module_id, len, i);
                    assert(begins_values(mid, *self, module_id, len, i as int, r.0, r.1@));
                    r
                },
                Event::Registers(_) => self.fail(CollectError::OutOfOrder),
            },
            Phase::Values { module_id, len, def, values, next } => match event {
                Event::Registers(regs) => {
                    let mut values = values;
                    let mut regs = regs;
                    let ghost before = values@;
                    let ghost got = regs@;
                    values.append(&mut regs);
                    if next as u32 + 100 > 0xFFFF {
                        return self.fail(CollectError::AddressOverflow);
                    }
                    let next2 = next + 100;
                    if next2 < len {
                        if self.haddr as u32 + 2 + next2 as u32 > 0xFFFF {
                            return self.fail(CollectError::AddressOverflow);
                        }
                        let count: u16 = if len < 100 {
                            len
                        } else {
                            100
                        };
                        let addr = self.haddr + 2 + next2;
                        self.phase = Phase::Values { module_id, len, def, values, next: next2 };
                        (Action::Read { addr, count }, Vec::new())
                    } else {
                        let ghost mid = *self;
                        let r = self.complete_block(module_id, len, def, values);
                        proof {
                            lemma_completes_any_phase(mid, *old(self), *self, module_id, len, def as int, before + got, r.0, r.1@);
                        }
                        r
                    }
                },
                Event::Definition(_) => self.fail(CollectError::OutOfOrder),
            },
            Phase::Finished => self.fail(CollectError::OutOfOrder),
        }
    }
}


/// A model definition is fetched only for a module id that has none cached, and the
/// cache keeps at most one definition per module id: no definition is fetched twice.
pub proof fn lemma_definitions_fetched_once(c: Collector, ev: Event, d: Collector, a: Action, notes: Seq<Note>)
    requires
        c.wf(),
        d.wf(),
        walk_step(c, ev, d, a, notes),
    ensures
        a matches Action::Fetch { module_id } ==> (forall|i: int|
            0 <= i < c.cache_ids@.len() ==> c.cache_ids@[i] != module_id) && d.cache_ids == c.cache_ids,
        forall|i: int, j: int|
            0 <= i < j < d.cache_ids@.len() ==> d.cache_ids@[i] != d.cache_ids@[j],
{
    if a is Fetch {
        let m = a->module_id;
        lemma_lookup_none(c.cache_ids@, m);
    }
}


/// While the walk goes on, it only adds to what it collected: every step keeps the blocks
/// and devices found so far, in order, and adds at most one block.
pub proof fn lemma_walk_keeps_collected(c: Collector, ev: Event, d: Collector, a: Action, notes: Seq<Note>)
    requires
        walk_step(c, ev, d, a, notes),
        a is Read || a is Fetch,
    ensures
        c.blocks@.len() <= d.blocks@.len() <= c.blocks@.len() + 1,
        d.blocks@.take(c.blocks@.len() as int) == c.blocks@,
        c.devices@.len() <= d.devices@.len(),
        d.devices@.take(c.devices@.len() as int) == c.devices@,
{
    if d.blocks@.len() == c.blocks@.len() + 1 {
        assert(d.blocks@.take(c.blocks@.len() as int) =~= d.blocks@.drop_last());
    } else {
        assert(d.blocks@.take(c.blocks@.len() as int) =~= c.blocks@);
    }
    assert(d.devices@.take(c.devices@.len() as int) =~= c.devices@);
}


/// Whether a block is a common model block: the value of its ID point is 1.
pub open spec fn is_common_model(b: Block) -> bool {
    b.group.model().points.len() > 0 && b.group.model().points[0].value == Some(IntOrString::Int(1))
}

/// Device identification follows the common model: a step that completes a common model
/// block whose identification parses makes that identification the collector's (and the
/// block's); any other step keeps the collector's identification; and every completed
/// block carries the collector's identification after the step.
pub proof fn lemma_device_info_step(c: Collector, ev: Event, d: Collector, a: Action, notes: Seq<Note>)
    requires
        walk_step(c, ev, d, a, notes),
        a is Read || a is Fetch,
    ensures
        d.blocks@.len() == c.blocks@.len() ==> d.device_info == c.device_info,
        d.blocks@.len() == c.blocks@.len() + 1 ==> d.blocks@.last().device_info == d.device_info,
        d.blocks@.len() == c.blocks@.len() + 1 && is_common_model(d.blocks@.last())
            && mod1_strings(d.blocks@.last().fields@) is Some ==> mod1_strings(d.blocks@.last().fields@)
            == Some(info_strings(d.device_info)),
        d.blocks@.len() == c.blocks@.len() + 1 && !(is_common_model(d.blocks@.last())
            && mod1_strings(d.blocks@.last().fields@) is Some) ==> d.device_info == c.device_info,
{
    match (c.phase, ev) {
        (Phase::Header, Event::Registers(regs)) => {
            if regs@.len() >= 2 && regs@[0] != 0xFFFF {
                if let Some(i) = cache_lookup(c.cache_ids@, regs@[0]) {
                    if regs@[1] == 0 {
                        lemma_completion_info(c, d, regs@[0], regs@[1], i, Seq::empty(), a, notes.drop_first());
                    }
                }
            }
        },
        (Phase::Definition { module_id, len }, Event::Definition(def)) => {
            let i = c.cache@.len() as int;
            let c2 = choose|c2: Collector|
                {
                    &&& c2.haddr == c.haddr
                    &&& c2.device_id == c.device_id
                    &&& c2.base_addr == c.base_addr
                    &&& c2.devices == c.devices
                    &&& c2.blocks == c.blocks
                    &&& c2.device_info == c.device_info
                    &&& c2.cache@ == c.cache@.push(def)
                    &&& c2.cache_ids@ == c.cache_ids@.push(module_id)
                    &&& begins_values(c2, d, module_id, len, i, a, notes)
                };
            if len == 0 {
                lemma_completion_info(c2, d, module_id, len, i, Seq::empty(), a, notes);
            }
        },
        (Phase::Values { module_id, len, def, values, next }, Event::Registers(regs)) => {
            if next + 100 <= 0xFFFF && next + 100 >= len {
                lemma_completion_info(c, d, module_id, len, def as int, values@ + regs@, a, notes);
            }
        },
        _ => {},
    }
}

proof fn lemma_completion_info(
    c: Collector,
    d: Collector,
    module_id: u16,
    len: u16,
    i: int,
    vals: Seq<u16>,
    a: Action,
    notes: Seq<Note>,
)
    requires
        completes_block(c, d, module_id, len, i, vals, a, notes),
        a is Read || a is Fetch,
    ensures
        d.blocks@.len() == c.blocks@.len() + 1,
        d.blocks@.last().device_info == d.device_info,
        is_common_model(d.blocks@.last()) <==> module_id == 1,
        is_common_model(d.blocks@.last()) && mod1_strings(d.blocks@.last().fields@) is Some
            ==> mod1_strings(d.blocks@.last().fields@) == Some(info_strings(d.device_info)),
        !(is_common_model(d.blocks@.last()) && mod1_strings(d.blocks@.last().fields@) is Some)
            ==> d.device_info == c.device_info,
{
    let def = c.cache@[i];
    let b = d.blocks@.last();
    assert(definition_fits(def, module_id));
    assert(b.group.model() == def.group.model());
    assert(b.group.model().points[0] == def.group.points@[0].model());
}


/// A run of the walk that goes on: collectors `cs[0]` to `cs[n]`, where each step takes
/// `cs[k]` on event `evs[k]` to `cs[k + 1]`, asking for a read or a fetch, with log `logs[k]`.
pub open spec fn walk_run(cs: Seq<Collector>, evs: Seq<Event>, acts: Seq<Action>, logs: Seq<Seq<Note>>) -> bool {
    &&& cs.len() == evs.len() + 1
    &&& acts.len() == evs.len()
    &&& logs.len() == evs.len()
    &&& forall|k: int|
        0 <= k < evs.len() ==> walk_step(cs[k], evs[k], cs[k + 1], acts[k], logs[k]) && (
        #[trigger] acts[k] is Read || acts[k] is Fetch)
}

/// Step `k` of a run completes a common model block whose identification parses.
pub open spec fn completes_common_model(cs: Seq<Collector>, k: int) -> bool {
    &&& cs[k + 1].blocks@.len() == cs[k].blocks@.len() + 1
    &&& is_common_model(cs[k + 1].blocks@.last())
    &&& mod1_strings(cs[k + 1].blocks@.last().fields@) is Some
}

proof fn lemma_carried_to(cs: Seq<Collector>, evs: Seq<Event>, acts: Seq<Action>, logs: Seq<Seq<Note>>, k: int, j: int)
    requires
        walk_run(cs, evs, acts, logs),
        0 <= k < j <= evs.len(),
        completes_common_model(cs, k),
        forall|x: int| k < x < evs.len() ==> !completes_common_model(cs, x),
    ensures
        ({
            let l = cs[k + 1].blocks@.len();
            let id = mod1_strings(cs[k + 1].blocks@.last().fields@);
            &&& l <= cs[j].blocks@.len()
            &&& cs[j].blocks@[l - 1] == cs[k + 1].blocks@.last()
            &&& Some(info_strings(cs[j].device_info)) == id
            &&& forall|m: int| l - 1 <= m < cs[j].blocks@.len() ==> Some(info_strings(#[trigger] cs[j].blocks@[m].device_info)) == id
        }),
    decreases j - k,
{
    let l = cs[k + 1].blocks@.len();
    if j == k + 1 {
        assert(acts[k] is Read || acts[k] is Fetch);
        lemma_device_info_step(cs[k], evs[k], cs[k + 1], acts[k], logs[k]);
    } else {
        lemma_carried_to(cs, evs, acts, logs, k, j - 1);
        let c = cs[j - 1];
        let d = cs[j];
        assert(acts[j - 1] is Read || acts[j - 1] is Fetch);
        lemma_device_info_step(c, evs[j - 1], d, acts[j - 1], logs[j - 1]);
        lemma_walk_keeps_collected(c, evs[j - 1], d, acts[j - 1], logs[j - 1]);
        assert(!completes_common_model(cs, j - 1));
        assert forall|m: int| l - 1 <= m < d.blocks@.len() implies Some(info_strings(#[trigger] d.blocks@[m].device_info))
            == mod1_strings(cs[k + 1].blocks@.last().fields@) by {
            if m < c.blocks@.len() {
                assert(d.blocks@[m] == d.blocks@.take(c.blocks@.len() as int)[m]);
            }
        }
        assert(d.blocks@[l - 1] == d.blocks@.take(c.blocks@.len() as int)[l - 1]);
    }
}

/// Along a run of the walk, the identification of a common model block is carried by every
/// block collected after it (until another common model block gives a new one): the
/// Telegraf tags of those blocks name the device that module 1 describes.
pub proof fn lemma_identification_carried(cs: Seq<Collector>, evs: Seq<Event>, acts: Seq<Action>, logs: Seq<Seq<Note>>, k: int)
    requires
        walk_run(cs, evs, acts, logs),
        0 <= k < evs.len(),
        completes_common_model(cs, k),
        forall|x: int| k < x < evs.len() ==> !completes_common_model(cs, x),
    ensures
        forall|m: int|
            cs[k + 1].blocks@.len() - 1 <= m < cs[evs.len() as int].blocks@.len() ==> Some(
                info_strings(#[trigger] cs[evs.len() as int].blocks@[m].device_info),
            ) == mod1_strings(cs[k + 1].blocks@.last().fields@),
{
    lemma_carried_to(cs, evs, acts, logs, k, evs.len() as int);
}

} // verus!
