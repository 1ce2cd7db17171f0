//! Loading user programs
//!
//! A user program is either linked into the kernel image, with its
//! sections stored in flash, or a binary blob holding its text followed by
//! its data. All programs share one layout, fixed by the linker: loading
//! copies the text and data to the process's text and data segments and
//! zeroes its bss. This module plans that copy; the caller moves the bytes.

use vstd::prelude::*;
use crate::process::{LoadError, LoadedImage};
use crate::region::Order;
use crate::text::same_text;
use crate::usermem::{MemoryMap, PMP_ADDR_COUNT, Role, UserLayout};

verus! {

/// A user program image.
#[derive(Clone, Copy)]
pub enum Image {
    /// Linked into the kernel: the address of its entry function.
    Flash(usize),
    /// A binary blob: its text, then its data.
    Blob(&'static [u8]),
}

/// Where the linker put the user program sections: the load address in
/// flash and the size of text and data, and the size of bss.
#[derive(Clone, Copy, Debug, PartialEq, Eq)]
pub struct LinkedSections {
    pub text_lma: usize,
    pub text_size: usize,
    pub data_lma: usize,
    pub data_size: usize,
    pub bss_size: usize,
}

/// Where a segment's bytes come from.
#[derive(Clone, Copy, Debug, PartialEq, Eq, Structural)]
pub enum Source {
    /// An address in flash.
    Flash(usize),
    /// An offset into the blob.
    Blob(usize),
}

/// One segment of a load plan: where its bytes come from (nowhere for a
/// segment that is zeroed) and how many there are.
#[derive(Clone, Copy, Debug, PartialEq, Eq, Structural)]
pub struct Segment {
    pub source: Option<Source>,
    pub size: usize,
}

/// What to load: text, data and bss.
#[derive(Clone, Copy, Debug, PartialEq, Eq, Structural)]
pub struct Plan {
    pub text: Segment,
    pub data: Segment,
    pub bss: Segment,
}

/// One step of loading: copy `len` bytes from `source` to address `dest`,
/// or write `len` zero bytes there when there is no source.
#[derive(Clone, Copy, Debug, PartialEq, Eq, Structural)]
pub struct Transfer {
    pub source: Option<Source>,
    pub dest: usize,
    pub len: usize,
}

/// The plan for `image`, or `None` for a blob whose length is not the
/// text size plus the data size.
pub open spec fn plan_of(image: Image, linked: LinkedSections) -> Option<Plan> {
    let bss = Segment { source: None, size: linked.bss_size };
    match image {
        Image::Flash(_) => Some(Plan {
            text: Segment { source: Some(Source::Flash(linked.text_lma)), size: linked.text_size },
            data: Segment { source: Some(Source::Flash(linked.data_lma)), size: linked.data_size },
            bss,
        }),
        Image::Blob(bytes) => if bytes@.len() == linked.text_size + linked.data_size {
            Some(Plan {
                text: Segment { source: Some(Source::Blob(0)), size: linked.text_size },
                data: Segment { source: Some(Source::Blob(linked.text_size)), size: linked.data_size },
                bss,
            })
        } else {
            None
        },
    }
}

/// The sections fit the process segments: 4 KiB of text, 2 KiB each of
/// data and bss.
pub open spec fn fits_segments(linked: LinkedSections) -> bool {
    &&& linked.text_size == Order::KB4.spec_size()
    &&& linked.data_size == Order::KB2.spec_size()
    &&& linked.bss_size == Order::KB2.spec_size()
}

/// The fixed segment addresses can be used: non-zero, aligned to their
/// sizes, and not running past the end of the address space.
pub open spec fn layout_ok(layout: UserLayout) -> bool {
    &&& layout.text_start > 0
    &&& layout.data_start > 0
    &&& layout.bss_start > 0
    &&& layout.text_start as nat % Order::KB4.spec_size() == 0
    &&& layout.data_start as nat % Order::KB2.spec_size() == 0
    &&& layout.bss_start as nat % Order::KB2.spec_size() == 0
    &&& layout.text_start + Order::KB4.spec_size() <= usize::MAX
    &&& layout.data_start + Order::KB2.spec_size() <= usize::MAX
    &&& layout.bss_start + Order::KB2.spec_size() <= usize::MAX
}

/// The transfers that load `plan` into segments at `layout`.
pub open spec fn transfers_of(plan: Plan, layout: UserLayout) -> Seq<Transfer> {
    seq![
        Transfer { source: plan.text.source, dest: layout.text_start, len: plan.text.size },
        Transfer { source: plan.data.source, dest: layout.data_start, len: plan.data.size },
        Transfer { source: None, dest: layout.bss_start, len: plan.bss.size },
    ]
}

impl Plan {
    /// The plan to load `image`: a linked program is copied from its
    /// sections in flash, a blob from its first bytes (text) and the bytes
    /// after them (data); bss is zeroed. A blob whose length is not the text
    /// size plus the data size is refused.
    pub fn from_image(image: Image, linked: &LinkedSections) -> (r: Result<Plan, LoadError>)
        ensures
            match plan_of(image, *linked) {
                Some(p) => r == Ok::<Plan, LoadError>(p),
                None => r == Err::<Plan, LoadError>(LoadError::MismatchedBlobSize),
            },
    {
        let bss = Segment { source: None, size: linked.bss_size };
        match image {
            Image::Flash(_) => Ok(Plan {
                text: Segment { source: Some(Source::Flash(linked.text_lma)), size: linked.text_size },
                data: Segment { source: Some(Source::Flash(linked.data_lma)), size: linked.data_size },
                bss,
            }),
            Image::Blob(bytes) => {
                let len = bytes.len();
                let fits = len >= linked.text_size && len - linked.text_size == linked.data_size;
                if !fits {
                    return Err(LoadError::MismatchedBlobSize);
                }
                Ok(Plan {
                    text: Segment { source: Some(Source::Blob(0)), size: linked.text_size },
                    data: Segment { source: Some(Source::Blob(linked.text_size)), size: linked.data_size },
                    bss,
                })
            },
        }
    }

    /// The transfers that load the plan into `user_mem_map`: text and
    /// data copied to their segments, bss zeroed. Each segment must be in
    /// the map with the size the plan gives it.
    pub fn copy_user_image(&self, user_mem_map: &MemoryMap) -> (r: Vec<Transfer>)
        requires
            user_mem_map.wf(),
            self.text.source is Some,
            self.data.source is Some,
            user_mem_map@[Role::Text.spec_addr_slot() as int] matches Some(s)
                && s.region.order.spec_size() == self.text.size,
            user_mem_map@[Role::Data.spec_addr_slot() as int] matches Some(s)
                && s.region.order.spec_size() == self.data.size,
            user_mem_map@[Role::Bss.spec_addr_slot() as int] matches Some(s)
                && s.region.order.spec_size() == self.bss.size,
        ensures
            r@ == seq![
                Transfer {
                    source: self.text.source,
                    dest: user_mem_map@[Role::Text.spec_addr_slot() as int]->0.region.base,
                    len: self.text.size,
                },
                Transfer {
                    source: self.data.source,
                    dest: user_mem_map@[Role::Data.spec_addr_slot() as int]->0.region.base,
                    len: self.data.size,
                },
                Transfer {
                    source: None,
                    dest: user_mem_map@[Role::Bss.spec_addr_slot() as int]->0.region.base,
                    len: self.bss.size,
                },
            ],
    {
        let text = user_mem_map.region(Role::Text).unwrap();
        let data = user_mem_map.region(Role::Data).unwrap();
        let bss = user_mem_map.region(Role::Bss).unwrap();
        let mut r: Vec<Transfer> = Vec::new();
        r.push(Transfer { source: self.text.source, dest: text.base(), len: self.text.size });
        r.push(Transfer { source: self.data.source, dest: data.base(), len: self.data.size });
        r.push(Transfer { source: None, dest: bss.base(), len: self.bss.size });
        assert(r@ =~= seq![r@[0], r@[1], r@[2]]);
        r
    }
}

/// Loads `image`: plans it, sets up the process's memory map at `layout`,
/// and says where its entry point is and what its threads return to
/// (`user_exit` for a linked program; address zero, which faults, for a
/// blob, whose entry point is the start of its text). Returns the loaded
/// image and the transfers that bring its bytes into memory, which the
/// caller carries out, then makes the new instructions visible to both
/// harts.
pub fn load_user_image(
    image: Image,
    linked: &LinkedSections,
    layout: &UserLayout,
    user_exit: usize,
) -> (r: Result<(LoadedImage, Vec<Transfer>), LoadError>)
    requires
        fits_segments(*linked),
        layout_ok(*layout),
    ensures
        match plan_of(image, *linked) {
            None => r == Err::<(LoadedImage, Vec<Transfer>), LoadError>(LoadError::MismatchedBlobSize),
            Some(p) => r matches Ok((loaded, transfers)) && {
                &&& transfers@ == transfers_of(p, *layout)
                &&& loaded.user_mem_map.wf()
                &&& loaded.user_mem_map@[Role::Text.spec_addr_slot() as int] matches Some(s)
                    && s.region.base == layout.text_start && s.region.order == Order::KB4
                &&& loaded.user_mem_map@[Role::Data.spec_addr_slot() as int] matches Some(s)
                    && s.region.base == layout.data_start && s.region.order == Order::KB2
                &&& loaded.user_mem_map@[Role::Bss.spec_addr_slot() as int] matches Some(s)
                    && s.region.base == layout.bss_start && s.region.order == Order::KB2
                &&& forall|i: int| 0 <= i < PMP_ADDR_COUNT && i != Role::Text.spec_addr_slot() && i != Role::Data.spec_addr_slot()
                    && i != Role::Bss.spec_addr_slot() ==> #[trigger] loaded.user_mem_map@[i] is None
                &&& loaded.entry == match image {
                    Image::Flash(f) => f,
                    Image::Blob(_) => layout.text_start,
                }
                &&& loaded.entry_ra == match image {
                    Image::Flash(_) => user_exit,
                    Image::Blob(_) => 0usize,
                }
            },
        },
{
    let plan = match Plan::from_image(image, linked) {
        Ok(p) => p,
        Err(e) => return Err(e),
    };
    let mut user_mem_map = MemoryMap::new();
    if user_mem_map.try_for_process(layout).is_err() {
        return Err(LoadError::NotEnoughMemory);
    }
    let transfers = plan.copy_user_image(&user_mem_map);
    let entry = match image {
        Image::Blob(_) => user_mem_map.region(Role::Text).unwrap().base(),
        Image::Flash(f) => f,
    };
    let entry_ra = match image {
        Image::Flash(_) => user_exit,
        Image::Blob(_) => 0,
    };
    assert(transfers@ =~= transfers_of(plan, *layout));
    Ok((LoadedImage { user_mem_map, entry, entry_ra }, transfers))
}

/// A named user program.
#[derive(Clone, Copy)]
pub struct Program {
    pub name: &'static str,
    pub image: Image,
}

/// The index of the first program named `name` among the first `n` of
/// `programs`, if any.
pub open spec fn first_named(programs: Seq<Program>, name: Seq<char>, n: int) -> Option<int>
    decreases n,
{
    if n <= 0 {
        None
    } else {
        match first_named(programs, name, n - 1) {
            Some(i) => Some(i),
            None => if programs[n - 1].name@ == name { Some(n - 1) } else { None },
        }
    }
}

/// The table of user programs the shell can run.
pub struct Programs(pub Vec<Program>);

impl Programs {
    /// The image of the first program called `name`, or `None` if there is
    /// none.
    pub fn find(&self, name: &str) -> (r: Option<Image>)
        ensures
            match first_named(self.0@, name@, self.0@.len() as int) {
                Some(i) => r matches Some(img) && img == self.0@[i].image,
                None => r is None,
            },
    {
        let mut i: usize = 0;
        while i < self.0.len()
            invariant
                i <= self.0@.len(),
                first_named(self.0@, name@, i as int) is None,
            decreases self.0@.len() - i,
        {
            let program = &self.0[i];
            if same_text(program.name, name) {
                assert(first_named(self.0@, name@, i + 1) == Some(i as int));
                proof {
                    lemma_first_named_stays(self.0@, name@, i + 1, self.0@.len() as int);
                }
                return Some(program.image);
            }
            i = i + 1;
        }
        None
    }
}

/// Once found among the first `m`, the first match stays the same for
/// every longer prefix.
proof fn lemma_first_named_stays(programs: Seq<Program>, name: Seq<char>, m: int, n: int)
    requires
        0 <= m <= n,
        first_named(programs, name, m) is Some,
    ensures
        first_named(programs, name, n) == first_named(programs, name, m),
    decreases n - m,
{
    if n > m {
        lemma_first_named_stays(programs, name, m, n - 1);
    }
}

} // verus!
