use vstd::prelude::*;

use crate::filter::{has_caption, is_taskbar_window, structurally_eligible};
use crate::text::{executable_stem, executable_stem_of, title_of, window_title, TEXT_CAPACITY};

verus! {

/// What the windowing environment reported of one top-level window.
///
/// `title_buffer` holds the caption as read, of which `title_length` units
/// were filled. `executable_path` holds the owning process's executable path as
/// read, of which `executable_path_length` units were filled, or is `None` where
/// that process could not be opened for querying.
pub struct WindowProbe {
    pub handle: usize,
    pub visible: bool,
    pub has_owner: bool,
    pub style: u32,
    pub title_buffer: Vec<u16>,
    pub title_length: i32,
    pub executable_path: Option<Vec<u16>>,
    pub executable_path_length: u32,
}

/// One application window listed by an enumeration.
pub struct WindowRecord {
    pub handle: usize,
    pub title: String,
    pub application_name: String,
}

/// The value of a `WindowRecord`.
pub struct RecordView {
    pub handle: usize,
    pub title: Seq<char>,
    pub application_name: Seq<char>,
}

impl View for WindowRecord {
    type V = RecordView;

    open spec fn view(&self) -> RecordView {
        RecordView { handle: self.handle, title: self.title@, application_name: self.application_name@ }
    }
}

impl WindowProbe {
    /// A probe of a window whose environment answers are given; the buffers
    /// are empty and the process is taken as unopened.
    pub fn new(handle: usize, visible: bool, has_owner: bool, style: u32) -> (r: WindowProbe)
        ensures
            r.handle == handle,
            r.visible == visible,
            r.has_owner == has_owner,
            r.style == style,
            r.title_buffer@.len() == 0,
            r.title_length == 0,
            r.executable_path is None,
            r.executable_path_length == 0,
    {
        WindowProbe {
            handle,
            visible,
            has_owner,
            style,
            title_buffer: Vec::new(),
            title_length: 0,
            executable_path: None,
            executable_path_length: 0,
        }
    }
}

/// The decoded caption of a probed window.
pub open spec fn probe_title(p: WindowProbe) -> Seq<char> {
    title_of(p.title_buffer@, p.title_length as int)
}

/// The application name of a probed window: empty where its process could
/// not be opened.
pub open spec fn probe_application_name(p: WindowProbe) -> Seq<char> {
    match p.executable_path {
        Some(path) => executable_stem_of(path@, p.executable_path_length as int),
        None => Seq::empty(),
    }
}

/// The window is listed: it passes the structural filter and has a non-empty title.
pub open spec fn is_listed(p: WindowProbe) -> bool {
    structurally_eligible(p.visible, p.has_owner, p.style) && probe_title(p).len() > 0
}

/// The record that a listed window yields.
pub open spec fn record_of(p: WindowProbe) -> RecordView {
    RecordView { handle: p.handle, title: probe_title(p), application_name: probe_application_name(p) }
}

/// Turns one probed window into its record, or `None` where it is not listed.
pub fn window_record(probe: &WindowProbe) -> (r: Option<WindowRecord>)
    ensures
        r is Some <==> is_listed(*probe),
        r matches Some(rec) ==> rec@ == record_of(*probe),
{
    if !is_taskbar_window(probe.visible, probe.has_owner, probe.style) {
        return None;
    }
    let title = window_title(&probe.title_buffer, probe.title_length);
    if title.as_str().is_empty() {
        return None;
    }
    let application_name = match &probe.executable_path {
        Some(path) => executable_stem(path, probe.executable_path_length),
        None => String::new(),
    };
    Some(WindowRecord { handle: probe.handle, title, application_name })
}

/// No two records share a handle.
pub open spec fn handles_distinct(rs: Seq<RecordView>) -> bool {
    forall|i: int, j: int| 0 <= i < j < rs.len() ==> rs[i].handle != rs[j].handle
}

/// Position of the last record with handle `h`, or -1 where there is none.
pub open spec fn handle_index(rs: Seq<RecordView>, h: usize) -> int
    decreases rs.len(),
{
    if rs.len() == 0 {
        -1
    } else if rs.last().handle == h {
        rs.len() - 1
    } else {
        handle_index(rs.drop_last(), h)
    }
}

/// Adds a record, replacing the one with the same handle where there is one.
pub open spec fn upsert(rs: Seq<RecordView>, r: RecordView) -> Seq<RecordView> {
    let i = handle_index(rs, r.handle);
    if i < 0 {
        rs.push(r)
    } else {
        rs.update(i, r)
    }
}

/// The records that an enumeration yields for the probed windows, in the
/// order in which their handles first came.
pub open spec fn collected(ps: Seq<WindowProbe>) -> Seq<RecordView>
    decreases ps.len(),
{
    if ps.len() == 0 {
        Seq::empty()
    } else {
        let prev = collected(ps.drop_last());
        if is_listed(ps.last()) {
            upsert(prev, record_of(ps.last()))
        } else {
            prev
        }
    }
}

proof fn lemma_handle_index(rs: Seq<RecordView>, h: usize)
    ensures
        -1 <= handle_index(rs, h) < rs.len(),
        handle_index(rs, h) >= 0 ==> rs[handle_index(rs, h)].handle == h,
        handle_index(rs, h) < 0 ==> forall|k: int| 0 <= k < rs.len() ==> rs[k].handle != h,
        forall|k: int|
            0 <= k < rs.len() && rs[k].handle == h && handles_distinct(rs) ==> handle_index(rs, h)
                == k,
    decreases rs.len(),
{
    if rs.len() > 0 {
        lemma_handle_index(rs.drop_last(), h);
        assert forall|k: int|
            0 <= k < rs.len() && rs[k].handle == h && handles_distinct(rs) implies handle_index(
            rs,
            h,
        ) == k by {
            if k < rs.len() - 1 {
                assert(rs.drop_last()[k] == rs[k]);
                assert(handles_distinct(rs.drop_last()));
            }
        }
        if handle_index(rs, h) < 0 {
            assert forall|k: int| 0 <= k < rs.len() implies rs[k].handle != h by {
                if k < rs.len() - 1 {
                    assert(rs.drop_last()[k] == rs[k]);
                }
            }
        }
    }
}

/// `r` is the record of one of the listed windows of `ps`.
pub open spec fn from_listed_probe(ps: Seq<WindowProbe>, r: RecordView) -> bool {
    exists|j: int| 0 <= j < ps.len() && is_listed(#[trigger] ps[j]) && r == record_of(ps[j])
}

/// Some record of `rs` has handle `h`.
pub open spec fn lists_handle(rs: Seq<RecordView>, h: usize) -> bool {
    exists|i: int| 0 <= i < rs.len() && #[trigger] rs[i].handle == h
}

/// Every record of the enumeration is the record of a listed window, a
/// handle appears in it whenever some probe of it is listed, and no handle
/// appears twice.
pub proof fn lemma_collected(ps: Seq<WindowProbe>)
    ensures
        handles_distinct(collected(ps)),
        forall|i: int|
            0 <= i < collected(ps).len() ==> from_listed_probe(ps, #[trigger] collected(ps)[i]),
        forall|j: int|
            0 <= j < ps.len() && is_listed(#[trigger] ps[j]) ==> lists_handle(
                collected(ps),
                ps[j].handle,
            ),
    decreases ps.len(),
{
    if ps.len() > 0 {
        let init = ps.drop_last();
        lemma_collected(init);
        let prev = collected(init);
        let p = ps.last();
        let cur = collected(ps);
        assert forall|j: int| 0 <= j < init.len() implies #[trigger] init[j] == ps[j] by {}
        if is_listed(p) {
            let r = record_of(p);
            lemma_handle_index(prev, r.handle);
            let idx = handle_index(prev, r.handle);
            assert forall|i: int| 0 <= i < cur.len() implies from_listed_probe(
                ps,
                #[trigger] cur[i],
            ) by {
                if (idx < 0 && i == prev.len()) || i == idx {
                    assert(ps[ps.len() - 1] == p);
                } else {
                    assert(from_listed_probe(init, prev[i]));
                    let j0 = choose|j: int|
                        0 <= j < init.len() && is_listed(#[trigger] init[j]) && prev[i]
                            == record_of(init[j]);
                    assert(ps[j0] == init[j0]);
                }
            }
            assert forall|j: int| 0 <= j < ps.len() && is_listed(#[trigger] ps[j]) implies lists_handle(
                cur,
                ps[j].handle,
            ) by {
                if j == ps.len() - 1 {
                    if idx < 0 {
                        assert(cur[prev.len() as int].handle == ps[j].handle);
                    } else {
                        assert(cur[idx].handle == ps[j].handle);
                    }
                } else {
                    assert(is_listed(init[j]));
                    assert(lists_handle(prev, init[j].handle));
                    let i0 = choose|i: int| 0 <= i < prev.len() && #[trigger] prev[i].handle == init[j].handle;
                    assert(cur[i0].handle == ps[j].handle);
                }
            }
            assert forall|a: int, b: int| 0 <= a < b < cur.len() implies cur[a].handle != cur[b].handle by {
                if idx < 0 {
                    if b == prev.len() {
                        assert(prev[a].handle != r.handle);
                    }
                }
            }
        } else {
            assert forall|i: int| 0 <= i < cur.len() implies from_listed_probe(
                ps,
                #[trigger] cur[i],
            ) by {
                assert(from_listed_probe(init, prev[i]));
                let j0 = choose|j: int|
                    0 <= j < init.len() && is_listed(#[trigger] init[j]) && prev[i] == record_of(
                        init[j],
                    );
                assert(ps[j0] == init[j0]);
            }
            assert forall|j: int| 0 <= j < ps.len() && is_listed(#[trigger] ps[j]) implies lists_handle(
                cur,
                ps[j].handle,
            ) by {
                assert(j < ps.len() - 1);
                assert(is_listed(init[j]));
            }
        }
    }
}

/// The values of a sequence of records.
pub open spec fn views(rs: Seq<WindowRecord>) -> Seq<RecordView> {
    rs.map_values(|w: WindowRecord| w@)
}

/// Position of the record with handle `h`, or the length where none has it.
fn find_handle(records: &Vec<WindowRecord>, h: usize) -> (r: usize)
    requires
        handles_distinct(views(records@)),
    ensures
        handle_index(views(records@), h) < records.len(),
        handle_index(views(records@), h) < 0 ==> r == records.len(),
        handle_index(views(records@), h) >= 0 ==> r as int == handle_index(views(records@), h),
{
    proof {
        lemma_handle_index(views(records@), h);
    }
    let mut i: usize = 0;
    while i < records.len()
        invariant
            i <= records.len(),
            handles_distinct(views(records@)),
            forall|k: int| 0 <= k < i ==> views(records@)[k].handle != h,
        decreases records.len() - i,
    {
        if records[i].handle == h {
            assert(views(records@)[i as int].handle == h);
            proof {
                lemma_handle_index(views(records@), h);
            }
            return i;
        }
        i = i + 1;
    }
    proof {
        lemma_handle_index(views(records@), h);
    }
    i
}

/// Collects the records of the listed windows among `probes`, one per
/// handle: a later listed probe of a handle replaces the earlier record, in
/// its place.
pub fn collect_windows(probes: &Vec<WindowProbe>) -> (r: Vec<WindowRecord>)
    ensures
        views(r@) == collected(probes@),
        handles_distinct(views(r@)),
{
    let mut records: Vec<WindowRecord> = Vec::new();
    let mut k: usize = 0;
    assert(views(records@) =~= collected(probes@.take(0)));
    while k < probes.len()
        invariant
            k <= probes.len(),
            views(records@) == collected(probes@.take(k as int)),
        decreases probes.len() - k,
    {
        let ghost before = probes@.take(k as int);
        proof {
            lemma_collected(before);
        }
        assert(probes@.take(k as int + 1).drop_last() =~= before);
        assert(probes@.take(k as int + 1).last() == probes@[k as int]);
        match window_record(&probes[k]) {
            Some(rec) => {
                let ghost rv = rec@;
                let idx = find_handle(&records, rec.handle);
                if idx < records.len() {
                    records[idx] = rec;
                    assert(views(records@) =~= upsert(collected(before), rv));
                } else {
                    records.push(rec);
                    assert(views(records@) =~= upsert(collected(before), rv));
                }
            },
            None => {},
        }
        k = k + 1;
    }
    assert(probes@.take(k as int) =~= probes@);
    proof {
        lemma_collected(probes@);
    }
    records
}

/// A handle is listed only where some probe of it passes the whole filter.
proof fn lemma_listed_handle_has_listed_probe(ps: Seq<WindowProbe>, h: usize)
    requires
        lists_handle(collected(ps), h),
    ensures
        exists|j: int| 0 <= j < ps.len() && #[trigger] ps[j].handle == h && is_listed(ps[j]),
{
    lemma_collected(ps);
    let rs = collected(ps);
    let i = choose|i: int| 0 <= i < rs.len() && #[trigger] rs[i].handle == h;
    assert(from_listed_probe(ps, rs[i]));
    let j = choose|j: int| 0 <= j < ps.len() && is_listed(#[trigger] ps[j]) && rs[i] == record_of(ps[j]);
    assert(ps[j].handle == h);
}

/// A window without the title-bar style is never listed, whatever its
/// visibility and ownership.
pub proof fn lemma_uncaptioned_never_listed(ps: Seq<WindowProbe>, h: usize)
    requires
        forall|j: int| 0 <= j < ps.len() && #[trigger] ps[j].handle == h ==> !has_caption(ps[j].style),
    ensures
        !lists_handle(collected(ps), h),
{
    if lists_handle(collected(ps), h) {
        lemma_listed_handle_has_listed_probe(ps, h);
    }
}

/// A window with an owner is never listed, even when visible and captioned.
pub proof fn lemma_owned_never_listed(ps: Seq<WindowProbe>, h: usize)
    requires
        forall|j: int| 0 <= j < ps.len() && #[trigger] ps[j].handle == h ==> ps[j].has_owner,
    ensures
        !lists_handle(collected(ps), h),
{
    if lists_handle(collected(ps), h) {
        lemma_listed_handle_has_listed_probe(ps, h);
    }
}

/// A window whose title decodes to the empty text is never listed, even
/// when it passes the structural filter.
pub proof fn lemma_untitled_never_listed(ps: Seq<WindowProbe>, h: usize)
    requires
        forall|j: int| 0 <= j < ps.len() && #[trigger] ps[j].handle == h ==> probe_title(ps[j]).len() == 0,
    ensures
        !lists_handle(collected(ps), h),
{
    if lists_handle(collected(ps), h) {
        lemma_listed_handle_has_listed_probe(ps, h);
    }
}

/// An enumeration never holds two records with the same handle.
pub proof fn lemma_no_duplicate_handles(ps: Seq<WindowProbe>)
    ensures
        handles_distinct(collected(ps)),
{
    lemma_collected(ps);
}

/// A window that passes the filter but whose process could not be opened is
/// still listed, with its title and an empty application name.
pub proof fn lemma_unopened_process_still_listed(ps: Seq<WindowProbe>, j: int)
    requires
        0 <= j < ps.len(),
        structurally_eligible(ps[j].visible, ps[j].has_owner, ps[j].style),
        probe_title(ps[j]).len() > 0,
        ps[j].executable_path is None,
        forall|k: int| 0 <= k < ps.len() && k != j ==> #[trigger] ps[k].handle != ps[j].handle,
    ensures
        exists|i: int|
            0 <= i < collected(ps).len() && #[trigger] collected(ps)[i] == (RecordView {
                handle: ps[j].handle,
                title: probe_title(ps[j]),
                application_name: Seq::empty(),
            }),
{
    lemma_collected(ps);
    let rs = collected(ps);
    let h = ps[j].handle;
    assert(is_listed(ps[j]));
    assert(lists_handle(rs, h));
    let i = choose|i: int| 0 <= i < rs.len() && #[trigger] rs[i].handle == h;
    assert(from_listed_probe(ps, rs[i]));
    let k = choose|k: int| 0 <= k < ps.len() && is_listed(#[trigger] ps[k]) && rs[i] == record_of(ps[k]);
    assert(ps[k].handle == h);
    assert(k == j);
    assert(rs[i] == record_of(ps[j]));
}

} // verus!
