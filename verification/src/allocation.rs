//! Bookkeeping behind the C allocation functions the runtime exports.
//!
//! `calloc`, `free` and `realloc` are served by the Rust global allocator,
//! which needs the layout of a block again when the block is released or
//! resized. The registry here remembers the layout of each live block by its
//! address; the functions below decide, for each C call, which layout to
//! allocate with, which block to release and what the registry becomes. The
//! allocations themselves are made by the caller.
use vstd::prelude::*;

verus! {

/// The alignment every block handed to C code gets (that of `max_align_t`).
pub const MAX_ALIGN: usize = 16;

/// Size and alignment of a block, as `core::alloc::Layout` holds them.
#[derive(Clone, Copy, Debug, PartialEq, Eq)]
pub struct MemLayout {
    pub size: usize,
    pub align: usize,
}

/// `size` rounded up to the next multiple of `align`.
pub open spec fn round_up(size: int, align: int) -> int {
    if size % align == 0 {
        size
    } else {
        size + (align - size % align)
    }
}

/// The conditions under which `Layout::from_size_align` accepts its
/// arguments: a nonzero power-of-two alignment, and a size that, rounded up
/// to that alignment, does not exceed `isize::MAX`.
pub open spec fn valid_layout(size: usize, align: usize) -> bool {
    &&& align != 0
    &&& align & ((align - 1) as usize) == 0
    &&& round_up(size as int, align as int) <= isize::MAX
}

/// Calls `core::alloc::Layout::from_size_align`. Its documentation states
/// that it fails exactly when the alignment is zero or not a power of two, or
/// when the size rounded up to the alignment exceeds `isize::MAX`; on success
/// the layout holds the given size and alignment.
#[verifier::external_body]
fn layout_from_size_align(size: usize, align: usize) -> (r: Option<MemLayout>)
    ensures
        r is Some <==> valid_layout(size, align),
        r matches Some(l) ==> l.size == size && l.align == align,
{
    match core::alloc::Layout::from_size_align(size, align) {
        Ok(l) => Some(MemLayout { size: l.size(), align: l.align() }),
        Err(_) => None,
    }
}

/// The layout `calloc(nmemb, size)` allocates with: `nmemb * size` bytes at
/// the maximal alignment, or none at all when that is zero bytes (the call
/// then returns a null pointer).
pub fn calloc_layout(nmemb: usize, size: usize) -> (r: Option<MemLayout>)
    requires
        nmemb * size <= usize::MAX,
        round_up(nmemb * size, MAX_ALIGN as int) <= isize::MAX,
    ensures
        r == (if nmemb * size == 0 {
            None
        } else {
            Some(MemLayout { size: (nmemb * size) as usize, align: MAX_ALIGN })
        }),
{
    let total = size * nmemb;
    assert(MAX_ALIGN & ((MAX_ALIGN - 1) as usize) == 0) by (bit_vector);
    let layout = layout_from_size_align(total, MAX_ALIGN);
    match layout {
        Some(l) => {
            if l.size == 0 {
                None
            } else {
                Some(l)
            }
        },
        None => None,
    }
}

/// The layout `realloc` moves a block with layout `old` to when `size`
/// bytes are requested: the new size, the old alignment.
pub fn realloc_layout(old: MemLayout, size: usize) -> (r: MemLayout)
    requires
        valid_layout(size, old.align),
    ensures
        r == (MemLayout { size, align: old.align }),
{
    match layout_from_size_align(size, old.align) {
        Some(l) => l,
        None => MemLayout { size, align: old.align },
    }
}

/// Upper bound on the number of entries the registry holds; below it
/// hashbrown's capacity computation for the table cannot overflow.
pub const REGISTRY_CAPACITY: usize = 0x00ff_ffff;

/// Table from block address to block layout, kept in a `hashbrown::HashMap`.
#[verifier::external_body]
pub struct LayoutTable {
    entries: hashbrown::HashMap<usize, (usize, usize)>,
}

/// The entries of a layout table: block address to (size, alignment).
pub uninterp spec fn table_entries(t: LayoutTable) -> Map<usize, (usize, usize)>;

/// The table with no entries.
pub open spec fn no_entries() -> Map<usize, (usize, usize)> {
    Map::empty()
}

/// Calls `hashbrown::HashMap::new`, which creates an empty map (a map
/// holds finitely many entries).
#[verifier::external_body]
fn table_new() -> (table: LayoutTable)
    ensures
        table_entries(table) == no_entries(),
        table_entries(table).dom().finite(),
{
    LayoutTable { entries: hashbrown::HashMap::new() }
}

/// Calls `hashbrown::HashMap::len`, the number of entries in the map.
#[verifier::external_body]
fn table_len(t: &LayoutTable) -> (n: usize)
    ensures
        n == table_entries(*t).len(),
{
    t.entries.len()
}

/// Calls `hashbrown::HashMap::insert`: the key now maps to the value, and the
/// value it mapped to before, if any, is returned. Growing the table panics
/// on capacity overflow, which cannot happen below `REGISTRY_CAPACITY`
/// entries, so the call does not unwind; allocation failure, which aborts,
/// is not stated.
#[verifier::external_body]
fn table_insert(t: &mut LayoutTable, key: usize, value: (usize, usize)) -> (prev: Option<
    (usize, usize),
>)
    requires
        table_entries(*old(t)).len() < REGISTRY_CAPACITY,
    ensures
        table_entries(*final(t)) == table_entries(*old(t)).insert(key, value),
        table_entries(*final(t)).dom().finite(),
        prev == (if table_entries(*old(t)).dom().contains(key) {
            Some(table_entries(*old(t))[key])
        } else {
            None
        }),
    no_unwind
{
    t.entries.insert(key, value)
}

/// Calls `hashbrown::HashMap::remove`: the key's entry is removed and its
/// value returned, or `None` when the key had no entry. It does not panic.
#[verifier::external_body]
fn table_remove(t: &mut LayoutTable, key: usize) -> (removed: Option<(usize, usize)>)
    ensures
        table_entries(*final(t)) == table_entries(*old(t)).remove(key),
        table_entries(*final(t)).dom().finite(),
        removed == (if table_entries(*old(t)).dom().contains(key) {
            Some(table_entries(*old(t))[key])
        } else {
            None
        }),
    no_unwind
{
    t.entries.remove(&key)
}

/// The live blocks handed out to C code, by address.
pub struct AllocRegistry {
    table: LayoutTable,
}

/// What `free` does with a pointer.
#[derive(Clone, Copy, Debug, PartialEq, Eq)]
pub enum FreeAction {
    /// The pointer is null: nothing happens.
    Ignore,
    /// Release the block, which was allocated with this layout.
    Release(MemLayout),
    /// The pointer names no live block: a double free.
    DoubleFree,
}

/// What `realloc` does with a pointer and a requested size.
#[derive(Clone, Copy, Debug, PartialEq, Eq)]
pub enum ReallocAction {
    /// The pointer is null: behave as `calloc(1, size)`.
    Allocate(Option<MemLayout>),
    /// Move the block from the first layout to the second.
    Resize(MemLayout, MemLayout),
    /// The pointer names no live block.
    Unknown,
}

impl AllocRegistry {
    /// The live blocks: address to (size, alignment).
    pub closed spec fn entries(&self) -> Map<usize, (usize, usize)> {
        table_entries(self.table)
    }

    /// The registry holds finitely many entries.
    #[verifier::type_invariant]
    closed spec fn finite_entries(self) -> bool {
        table_entries(self.table).dom().finite()
    }

    /// A registry with no live blocks.
    pub fn new() -> (r: AllocRegistry)
        ensures
            r.entries() == no_entries(),
            r.entries().dom().finite(),
    {
        AllocRegistry { table: table_new() }
    }

    /// The number of live blocks.
    pub fn len(&self) -> (n: usize)
        ensures
            n == self.entries().len(),
    {
        table_len(&self.table)
    }

    /// Remembers that the block at `addr` was allocated with `layout`; a
    /// null address (a failed allocation) is not remembered.
    pub fn record(&mut self, addr: usize, layout: MemLayout)
        requires
            old(self).entries().len() < REGISTRY_CAPACITY,
        ensures
            final(self).entries() == (if addr == 0 {
                old(self).entries()
            } else {
                old(self).entries().insert(addr, (layout.size, layout.align))
            }),
            final(self).entries().dom().finite(),
    {
        proof {
            use_type_invariant(&*self);
        }
        if addr != 0 {
            let _ = table_insert(&mut self.table, addr, (layout.size, layout.align));
        }
    }

    /// Decides what `free(addr)` does, and forgets the block it releases.
    pub fn free(&mut self, addr: usize) -> (action: FreeAction)
        ensures
            addr == 0 ==> action == FreeAction::Ignore && final(self).entries() == old(
                self,
            ).entries(),
            addr != 0 ==> final(self).entries() == old(self).entries().remove(addr),
            addr != 0 ==> action == (if old(self).entries().dom().contains(addr) {
                FreeAction::Release(
                    MemLayout {
                        size: old(self).entries()[addr].0,
                        align: old(self).entries()[addr].1,
                    },
                )
            } else {
                FreeAction::DoubleFree
            }),
            final(self).entries().dom().finite(),
    {
        proof {
            use_type_invariant(&*self);
        }
        if addr == 0 {
            return FreeAction::Ignore;
        }
        match table_remove(&mut self.table, addr) {
            Some((size, align)) => FreeAction::Release(MemLayout { size, align }),
            None => FreeAction::DoubleFree,
        }
    }

    /// Decides what `realloc(addr, size)` does, and forgets the block it
    /// moves (the block the move produces is recorded afterwards). The entry
    /// is dropped before the move is attempted, so a block whose move fails
    /// is no longer known: `realloc` keeps no record of a block it could not
    /// resize, and a later `free` of it is reported as a double free.
    pub fn realloc(&mut self, addr: usize, size: usize) -> (action: ReallocAction)
        requires
            addr == 0 ==> round_up(size as int, MAX_ALIGN as int) <= isize::MAX,
            addr != 0 && old(self).entries().dom().contains(addr) ==> valid_layout(
                size,
                old(self).entries()[addr].1,
            ),
        ensures
            addr == 0 ==> final(self).entries() == old(self).entries() && action
                == ReallocAction::Allocate(
                if size == 0 {
                    None
                } else {
                    Some(MemLayout { size, align: MAX_ALIGN })
                },
            ),
            addr != 0 ==> final(self).entries() == old(self).entries().remove(addr),
            addr != 0 ==> action == (if old(self).entries().dom().contains(addr) {
                ReallocAction::Resize(
                    MemLayout {
                        size: old(self).entries()[addr].0,
                        align: old(self).entries()[addr].1,
                    },
                    MemLayout { size, align: old(self).entries()[addr].1 },
                )
            } else {
                ReallocAction::Unknown
            }),
            final(self).entries().dom().finite(),
    {
        proof {
            use_type_invariant(&*self);
        }
        if addr == 0 {
            return ReallocAction::Allocate(calloc_layout(1, size));
        }
        match table_remove(&mut self.table, addr) {
            Some((old_size, align)) => {
                let old_layout = MemLayout { size: old_size, align };
                ReallocAction::Resize(old_layout, realloc_layout(old_layout, size))
            },
            None => ReallocAction::Unknown,
        }
    }
}

/// Freeing a block hands back the layout it was recorded with, and leaves
/// the registry as it was before the block was recorded (when no block at
/// that address was live then).
pub proof fn lemma_free_returns_recorded_layout(
    before: AllocRegistry,
    recorded: AllocRegistry,
    freed: AllocRegistry,
    addr: usize,
    layout: MemLayout,
    action: FreeAction,
)
    requires
        addr != 0,
        recorded.entries() == before.entries().insert(addr, (layout.size, layout.align)),
        freed.entries() == recorded.entries().remove(addr),
        action == (if recorded.entries().dom().contains(addr) {
            FreeAction::Release(
                MemLayout { size: recorded.entries()[addr].0, align: recorded.entries()[addr].1 },
            )
        } else {
            FreeAction::DoubleFree
        }),
    ensures
        action == FreeAction::Release(layout),
        freed.entries() == before.entries().remove(addr),
        !before.entries().dom().contains(addr) ==> freed.entries() == before.entries(),
{
    assert(freed.entries() =~= before.entries().remove(addr));
    if !before.entries().dom().contains(addr) {
        assert(freed.entries() =~= before.entries());
    }
}

/// A block freed once is reported as a double free when it is freed again.
pub proof fn lemma_second_free_is_double_free(
    freed: AllocRegistry,
    again: AllocRegistry,
    addr: usize,
    action: FreeAction,
    before: AllocRegistry,
)
    requires
        addr != 0,
        freed.entries() == before.entries().remove(addr),
        again.entries() == freed.entries().remove(addr),
        action == (if freed.entries().dom().contains(addr) {
            FreeAction::Release(
                MemLayout { size: freed.entries()[addr].0, align: freed.entries()[addr].1 },
            )
        } else {
            FreeAction::DoubleFree
        }),
    ensures
        action == FreeAction::DoubleFree,
        again.entries() == freed.entries(),
{
    assert(again.entries() =~= freed.entries());
}

/// Resizing a recorded block moves it from its recorded layout to one with
/// the requested size and the same alignment.
pub proof fn lemma_realloc_keeps_alignment(
    recorded: AllocRegistry,
    addr: usize,
    size: usize,
    layout: MemLayout,
    action: ReallocAction,
    before: AllocRegistry,
)
    requires
        addr != 0,
        recorded.entries() == before.entries().insert(addr, (layout.size, layout.align)),
        action == (if recorded.entries().dom().contains(addr) {
            ReallocAction::Resize(
                MemLayout { size: recorded.entries()[addr].0, align: recorded.entries()[addr].1 },
                MemLayout { size, align: recorded.entries()[addr].1 },
            )
        } else {
            ReallocAction::Unknown
        }),
    ensures
        action == ReallocAction::Resize(layout, MemLayout { size, align: layout.align }),
{
}

} // verus!
