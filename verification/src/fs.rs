//! Mount-table queries and the decisions of early filesystem setup.
//! The caller reads the mount table and performs the mounts.
use vstd::prelude::*;
use crate::text::str_chars;
use crate::sys::ebusy;

verus! {

/// The comma-separated fields of a mount option string, as `split(',')`
/// yields them: one more field than there are commas, empty ones included.
pub open spec fn opt_fields(s: Seq<char>) -> Seq<Seq<char>>
    decreases s.len(),
{
    if s.len() == 0 {
        seq![Seq::<char>::empty()]
    } else {
        let f = opt_fields(s.drop_last());
        if s.last() == ',' {
            f.push(Seq::<char>::empty())
        } else {
            f.update(f.len() - 1, f.last().push(s.last()))
        }
    }
}

/// `opt_fields` never yields an empty list.
pub proof fn lemma_opt_fields_nonempty(s: Seq<char>)
    ensures
        opt_fields(s).len() >= 1,
    decreases s.len(),
{
    if s.len() > 0 {
        lemma_opt_fields_nonempty(s.drop_last());
    }
}

/// Whether `a` and `b` hold the same characters.
fn chars_eq(a: &Vec<char>, b: &Vec<char>) -> (r: bool)
    ensures
        r == (a@ == b@),
{
    if a.len() != b.len() {
        return false;
    }
    let mut i: usize = 0;
    while i < a.len()
        invariant
            a@.len() == b@.len(),
            0 <= i <= a@.len(),
            forall|j: int| 0 <= j < i ==> a@[j] == b@[j],
        decreases a@.len() - i,
    {
        if a[i] != b[i] {
            return false;
        }
        i = i + 1;
    }
    assert(a@ =~= b@);
    true
}

/// Whether `opt` is one of the comma-separated options in `opts`.
pub fn hasopt(opts: &str, opt: &str) -> (r: bool)
    ensures
        r == opt_fields(opts@).contains(opt@),
{
    let o = str_chars(opts);
    let want = str_chars(opt);
    let mut found = false;
    let mut cur: Vec<char> = Vec::new();
    let ghost mut done: Seq<Seq<char>> = Seq::empty();
    let mut i: usize = 0;
    while i < o.len()
        invariant
            0 <= i <= o@.len(),
            want@ == opt@,
            opt_fields(o@.take(i as int)) == done.push(cur@),
            found == done.contains(want@),
        decreases o@.len() - i,
    {
        let c = o[i];
        assert(o@.take(i + 1).drop_last() =~= o@.take(i as int));
        if c == ',' {
            let same = chars_eq(&cur, &want);
            proof {
                lemma_seq_push_contains(done, cur@, want@);
                done = done.push(cur@);
            }
            found = found || same;
            cur = Vec::new();
            assert(opt_fields(o@.take(i + 1)) =~= done.push(cur@));
        } else {
            cur.push(c);
            assert(opt_fields(o@.take(i + 1)) =~= done.push(cur@));
        }
        i = i + 1;
    }
    assert(o@.take(o@.len() as int) =~= o@);
    let last = chars_eq(&cur, &want);
    proof {
        lemma_seq_push_contains(done, cur@, want@);
    }
    found || last
}

/// A sequence extended by `x` contains `y` just when it contained `y`
/// already or `x` is `y`.
proof fn lemma_seq_push_contains<A>(s: Seq<A>, x: A, y: A)
    ensures
        s.push(x).contains(y) == (s.contains(y) || x == y),
{
    if s.contains(y) {
        let k = choose|k: int| 0 <= k < s.len() && s[k] == y;
        assert(s.push(x)[k] == y);
    }
    if x == y {
        assert(s.push(x)[s.len() as int] == y);
    }
    if s.push(x).contains(y) {
        let k = choose|k: int| 0 <= k < s.push(x).len() && s.push(x)[k] == y;
        if k < s.len() {
            assert(s[k] == y);
        }
    }
}


/// The fields of two option strings joined by a comma are the fields of
/// the first followed by the fields of the second.
pub proof fn lemma_opt_fields_comma(a: Seq<char>, b: Seq<char>)
    ensures
        opt_fields(a.push(',') + b) == opt_fields(a) + opt_fields(b),
    decreases b.len(),
{
    let j = a.push(',');
    if b.len() == 0 {
        assert(j + b =~= j);
        assert(j.drop_last() =~= a);
        assert(opt_fields(a) + opt_fields(b) =~= opt_fields(a).push(Seq::<char>::empty()));
    } else {
        let b0 = b.drop_last();
        lemma_opt_fields_comma(a, b0);
        lemma_opt_fields_nonempty(b0);
        assert((j + b).drop_last() =~= j + b0);
        assert((j + b).last() == b.last());
        let fa = opt_fields(a);
        let fb0 = opt_fields(b0);
        if b.last() == ',' {
            assert((fa + fb0).push(Seq::<char>::empty()) =~= fa + fb0.push(Seq::<char>::empty()));
        } else {
            assert((fa + fb0).last() == fb0.last());
            assert((fa + fb0).update((fa + fb0).len() - 1, fb0.last().push(b.last())) =~= fa
                + fb0.update(fb0.len() - 1, fb0.last().push(b.last())));
        }
    }
}

proof fn lemma_seq_concat_contains<A>(s: Seq<A>, t: Seq<A>, x: A)
    ensures
        (s + t).contains(x) == (s.contains(x) || t.contains(x)),
{
    if s.contains(x) {
        let k = choose|k: int| 0 <= k < s.len() && s[k] == x;
        assert((s + t)[k] == x);
    }
    if t.contains(x) {
        let k = choose|k: int| 0 <= k < t.len() && t[k] == x;
        assert((s + t)[s.len() + k] == x);
    }
    if (s + t).contains(x) {
        let k = choose|k: int| 0 <= k < (s + t).len() && (s + t)[k] == x;
        if k < s.len() {
            assert(s[k] == x);
        } else {
            assert(t[k - s.len()] == x);
        }
    }
}

/// Law: an option is among `a,b` just when it is among `a` or among `b`,
/// whatever `a` and `b` hold; so joining in the other order, `b,a`, finds
/// the same options.
pub proof fn lemma_hasopt_comma(a: Seq<char>, b: Seq<char>, opt: Seq<char>)
    ensures
        opt_fields(a.push(',') + b).contains(opt) == (opt_fields(a).contains(opt) || opt_fields(
            b,
        ).contains(opt)),
        opt_fields(a.push(',') + b).contains(opt) == opt_fields(b.push(',') + a).contains(opt),
{
    lemma_opt_fields_comma(a, b);
    lemma_opt_fields_comma(b, a);
    lemma_seq_concat_contains(opt_fields(a), opt_fields(b), opt);
    lemma_seq_concat_contains(opt_fields(b), opt_fields(a), opt);
}

/// A list of options joined with commas.
pub open spec fn opt_join(xs: Seq<Seq<char>>) -> Seq<char>
    decreases xs.len(),
{
    if xs.len() <= 1 {
        if xs.len() == 0 {
            Seq::empty()
        } else {
            xs[0]
        }
    } else {
        opt_join(xs.drop_last()).push(',') + xs.last()
    }
}

proof fn lemma_opt_fields_append_plain(s: Seq<char>, t: Seq<char>)
    requires
        !t.contains(','),
    ensures
        opt_fields(s + t) == opt_fields(s).update(
            opt_fields(s).len() - 1,
            opt_fields(s).last() + t,
        ),
    decreases t.len(),
{
    lemma_opt_fields_nonempty(s);
    if t.len() == 0 {
        assert(s + t =~= s);
        assert(opt_fields(s).last() + t =~= opt_fields(s).last());
        assert(opt_fields(s).update(opt_fields(s).len() - 1, opt_fields(s).last())
            =~= opt_fields(s));
    } else {
        let t0 = t.drop_last();
        assert(!t0.contains(',')) by {
            if t0.contains(',') {
                let k = choose|k: int| 0 <= k < t0.len() && t0[k] == ',';
                assert(t[k] == ',');
            }
        }
        assert(t.last() != ',') by {
            assert(t[t.len() - 1] == t.last());
        }
        lemma_opt_fields_append_plain(s, t0);
        assert((s + t).drop_last() =~= s + t0);
        assert((s + t).last() == t.last());
        assert(opt_fields(s).last() + t0 + seq![t.last()] =~= opt_fields(s).last() + t);
        assert((opt_fields(s).last() + t0).push(t.last()) =~= opt_fields(s).last() + t);
        assert(opt_fields(s + t) =~= opt_fields(s).update(
            opt_fields(s).len() - 1,
            opt_fields(s).last() + t,
        ));
    }
}

/// Options that hold no comma, joined with commas, split back into the
/// same options.
pub proof fn lemma_opt_fields_join(xs: Seq<Seq<char>>)
    requires
        xs.len() >= 1,
        forall|i: int| 0 <= i < xs.len() ==> !(#[trigger] xs[i]).contains(','),
    ensures
        opt_fields(opt_join(xs)) == xs,
    decreases xs.len(),
{
    if xs.len() == 1 {
        lemma_opt_fields_append_plain(Seq::empty(), xs[0]);
        assert(Seq::<char>::empty() + xs[0] =~= xs[0]);
        assert(opt_fields(opt_join(xs)) =~= xs);
    } else {
        let init = xs.drop_last();
        assert forall|i: int| 0 <= i < init.len() implies !(#[trigger] init[i]).contains(',') by {
            assert(init[i] == xs[i]);
        }
        lemma_opt_fields_join(init);
        let j = opt_join(init).push(',');
        assert(j.drop_last() =~= opt_join(init));
        assert(opt_fields(j) == opt_fields(opt_join(init)).push(Seq::<char>::empty()));
        assert(!xs.last().contains(',')) by {
            assert(xs[xs.len() - 1] == xs.last());
        }
        lemma_opt_fields_append_plain(j, xs.last());
        assert(Seq::<char>::empty() + xs.last() =~= xs.last());
        assert(opt_fields(opt_join(xs)) =~= xs);
    }
}

/// Law: a list of options without commas, joined with commas, has exactly
/// the options of the list.
pub proof fn lemma_hasopt_join(xs: Seq<Seq<char>>, x: Seq<char>)
    requires
        xs.len() >= 1,
        forall|i: int| 0 <= i < xs.len() ==> !(#[trigger] xs[i]).contains(','),
    ensures
        opt_fields(opt_join(xs)).contains(x) == xs.contains(x),
{
    lemma_opt_fields_join(xs);
}


/// One line of a mount table (`/proc/mounts`, `/etc/mtab`): the mount
/// point and its comma-separated options.
#[derive(Debug)]
pub struct MountEntry {
    pub mnt_dir: String,
    pub mnt_opts: String,
}

/// Whether `i` is the first entry of `t` mounted on `dir`.
pub open spec fn first_mount(t: Seq<MountEntry>, dir: Seq<char>, i: int) -> bool {
    &&& 0 <= i < t.len()
    &&& t[i].mnt_dir@ == dir
    &&& forall|j: int| 0 <= j < i ==> (#[trigger] t[j]).mnt_dir@ != dir
}

/// Whether some entry of `t` is mounted on `dir`.
pub open spec fn mounted_on(t: Seq<MountEntry>, dir: Seq<char>) -> bool {
    exists|i: int| 0 <= i < t.len() && (#[trigger] t[i]).mnt_dir@ == dir
}

/// What `ismnt` answers for the table `table` (`None` when it could not be
/// read): 1 when the first entry on `dir` exists and, for a non-empty
/// `mode`, has `mode` among its options; 0 otherwise.
pub open spec fn spec_ismnt(table: Option<Seq<MountEntry>>, dir: Seq<char>, mode: Seq<char>) -> i32 {
    match table {
        None => 0,
        Some(t) => if exists|i: int| first_mount(t, dir, i) {
            let i = choose|i: int| first_mount(t, dir, i);
            if mode.len() == 0 || opt_fields(t[i].mnt_opts@).contains(mode) {
                1
            } else {
                0
            }
        } else {
            0
        },
    }
}

/// The view of an optional table.
pub open spec fn table_view(table: Option<&Vec<MountEntry>>) -> Option<Seq<MountEntry>> {
    match table {
        None => None,
        Some(t) => Some(t@),
    }
}

proof fn lemma_first_mount_unique(t: Seq<MountEntry>, dir: Seq<char>, i: int, k: int)
    requires
        first_mount(t, dir, i),
        first_mount(t, dir, k),
    ensures
        i == k,
{
    if i < k {
        assert(t[i].mnt_dir@ != dir);
    } else if k < i {
        assert(t[k].mnt_dir@ != dir);
    }
}

/// Whether `dir` is a mount point in the mount table `table`, and, when
/// `mode` is not empty, mounted with the option `mode`.  `table` is the
/// table read from a file such as `/proc/mounts`, `None` when the file
/// could not be opened: then the answer is 0.
pub fn ismnt(table: Option<&Vec<MountEntry>>, dir: &str, mode: &str) -> (r: i32)
    ensures
        r == spec_ismnt(table_view(table), dir@, mode@),
{
    let t = match table {
        None => { return 0; },  /* Dunno, maybe not */
        Some(t) => t,
    };
    let d = dir.to_owned();
    let mut found: i32 = 0;
    let mut i: usize = 0;
    while i < t.len()
        invariant
            0 <= i <= t@.len(),
            d@ == dir@,
            table_view(table) == Some(t@),
            found == 0,
            forall|j: int| 0 <= j < i ==> (#[trigger] t@[j]).mnt_dir@ != dir@,
        decreases t@.len() - i,
    {
        if t[i].mnt_dir == d {
            proof {
                assert(t@[i as int].mnt_dir@ == dir@);
                assert(first_mount(t@, dir@, i as int));
                let c = choose|c: int| first_mount(t@, dir@, c);
                lemma_first_mount_unique(t@, dir@, c, i as int);
            }
            if !mode.is_empty() {
                if hasopt(t[i].mnt_opts.as_str(), mode) {
                    found = 1;
                }
            } else {
                found = 1;
            }
            assert(spec_ismnt(Some(t@), dir@, mode@) == (if mode@.len() == 0 || opt_fields(
                t@[i as int].mnt_opts@,
            ).contains(mode@) {
                1i32
            } else {
                0i32
            }));
            return found;
        }
        i = i + 1;
    }
    assert(!exists|c: int| first_mount(t@, dir@, c));
    found
}

/// Whether `dir` is a mount point according to `/proc/mounts`, read by
/// the caller into `table` (`None` when it could not be opened).  This
/// relies on `/proc/mounts` being unique for each chroot or container.
pub fn fismnt(table: Option<&Vec<MountEntry>>, dir: &str) -> (r: i32)
    ensures
        r == spec_ismnt(table_view(table), dir@, Seq::empty()),
{
    proof {
        reveal_strlit("");
    }
    ismnt(table, dir, "")
}

/// Law: without a mode, `ismnt` answers whether any entry is mounted on
/// the directory.
pub proof fn lemma_fismnt_mounted(table: Option<Seq<MountEntry>>, dir: Seq<char>)
    ensures
        spec_ismnt(table, dir, Seq::empty()) == (if table is Some && mounted_on(table->0, dir) {
            1i32
        } else {
            0i32
        }),
{
    if let Some(t) = table {
        if mounted_on(t, dir) {
            lemma_exists_first_mount(t, dir, t.len() as int);
        } else {
            if exists|i: int| first_mount(t, dir, i) {
                let i = choose|i: int| first_mount(t, dir, i);
                assert(t[i].mnt_dir@ == dir);
            }
        }
    }
}

proof fn lemma_exists_first_mount(t: Seq<MountEntry>, dir: Seq<char>, n: int)
    requires
        0 <= n <= t.len(),
        exists|i: int| 0 <= i < n && (#[trigger] t[i]).mnt_dir@ == dir,
    ensures
        exists|i: int| first_mount(t, dir, i),
    decreases n,
{
    if exists|i: int| 0 <= i < n - 1 && (#[trigger] t[i]).mnt_dir@ == dir {
        lemma_exists_first_mount(t, dir, n - 1);
    } else {
        assert(first_mount(t, dir, n - 1));
    }
}

/// Law: a mount point found with a mode is found without one.
pub proof fn lemma_ismnt_mode_implies_mounted(
    table: Option<Seq<MountEntry>>,
    dir: Seq<char>,
    mode: Seq<char>,
)
    requires
        spec_ismnt(table, dir, mode) == 1,
    ensures
        spec_ismnt(table, dir, Seq::empty()) == 1,
{
}


/// A filesystem that early boot mounts.
#[derive(Clone, Copy, Debug)]
pub struct Fs<'a> {
    pub spec: &'a str,
    pub file: &'a str,
    pub fstype: &'a str,
}

/// The number of filesystems that early boot mounts.
pub const FS_COUNT: usize = 3;

/// Source, mount point and type of the filesystem at `i`: proc, then
/// devtmpfs, then sysfs.
pub open spec fn fs_at(i: int) -> (Seq<char>, Seq<char>, Seq<char>) {
    if i == 0 {
        ("proc"@, "/proc"@, "proc"@)
    } else if i == 1 {
        ("devtmpfs"@, "/dev"@, "devtmpfs"@)
    } else {
        ("sysfs"@, "/sys"@, "sysfs"@)
    }
}

/// Whether `fs` is the filesystem at `i`.
pub open spec fn fs_is(fs: Fs, i: int) -> bool {
    &&& fs.spec@ == fs_at(i).0
    &&& fs.file@ == fs_at(i).1
    &&& fs.fstype@ == fs_at(i).2
}

/// One step of early filesystem setup.
#[derive(Clone, Copy, Debug)]
pub enum fs_init_t<'a> {
    /// All filesystems were considered.
    Done,
    /// Already mounted (in a container, or by an initramfs): leave it.
    Skip,
    /// Mount it (see `fs_mount`).
    Mount(Fs<'a>),
}

/// Whether the filesystem at `step` is to be mounted, given
/// `/proc/mounts`: its mount point is not in the table.
pub open spec fn fs_needs_mount(step: int, table: Option<Seq<MountEntry>>) -> bool {
    spec_ismnt(table, fs_at(step).1, Seq::empty()) == 0
}

/// Step `step` of mounting proc, devtmpfs and sysfs: `table` is
/// `/proc/mounts` as read just before (`None` when it could not be opened,
/// as before proc is mounted).  A filesystem whose mount point is in the
/// table is skipped; one that is not is to be mounted.
pub fn fs_init(step: usize, table: Option<&Vec<MountEntry>>) -> (r: fs_init_t<'static>)
    ensures
        (r is Done) == (step >= FS_COUNT),
        step < FS_COUNT ==> (r is Mount) == fs_needs_mount(step as int, table_view(table)),
        r matches fs_init_t::Mount(fs) ==> fs_is(fs, step as int),
{
    if step >= FS_COUNT {
        return fs_init_t::Done;
    }
    let fs = if step == 0 {
        Fs { spec: "proc", file: "/proc", fstype: "proc" }
    } else if step == 1 {
        Fs { spec: "devtmpfs", file: "/dev", fstype: "devtmpfs" }
    } else {
        Fs { spec: "sysfs", file: "/sys", fstype: "sysfs" }
    };
    /*
     * Check if already mounted, we may be running in a
     * container, or an initramfs ran before us.
     */
    if fismnt(table, fs.file) != 0 {
        return fs_init_t::Skip;
    }
    fs_init_t::Mount(fs)
}

/// Law: on a system where proc, devtmpfs and sysfs are all mounted,
/// early filesystem setup mounts nothing.
pub proof fn lemma_fs_init_idempotent(t: Seq<MountEntry>, step: int)
    requires
        0 <= step < FS_COUNT,
        forall|i: int| 0 <= i < FS_COUNT ==> mounted_on(t, #[trigger] fs_at(i).1),
    ensures
        !fs_needs_mount(step, Some(t)),
{
    assert(mounted_on(t, fs_at(step).1));
    lemma_fismnt_mounted(Some(t), fs_at(step).1);
}

/// How a mount call ended.
#[derive(Clone, Copy, Debug)]
pub enum fs_mount_t {
    Mounted,
    /// It failed; the word names what was attempted.
    Failed(&'static str),
}

/// What a mount of type `fstype` is called in a failure report.
pub open spec fn fs_mount_word(fstype: Seq<char>) -> Seq<char> {
    if fstype.len() != 0 {
        "MS_MOVE"@
    } else {
        "mounting"@
    }
}

/// Judges a `mount` of a filesystem of type `fstype` that returned `rc`
/// and left `errno`: failed unless it returned 0 or the target was busy
/// (already mounted).  The word is "MS_MOVE" for a typed mount and
/// "mounting" for an untyped one.
pub fn fs_mount(fstype: &str, rc: i32, errno: i32) -> (r: fs_mount_t)
    ensures
        (r is Failed) == (rc != 0 && errno != crate::sys::spec_ebusy()),
        r matches fs_mount_t::Failed(w) ==> w@ == fs_mount_word(fstype@),
{
    let msg = if !fstype.is_empty() {
        "MS_MOVE"
    } else {
        "mounting"
    };
    if rc != 0 && errno != ebusy() {
        fs_mount_t::Failed(msg)
    } else {
        fs_mount_t::Mounted
    }
}

/// Law: a string without a comma is a single option, itself.  With
/// `lemma_opt_fields_comma` this fixes the fields of every string.
pub proof fn lemma_opt_fields_plain(s: Seq<char>)
    requires
        !s.contains(','),
    ensures
        opt_fields(s) == seq![s],
{
    lemma_opt_fields_append_plain(Seq::empty(), s);
    assert(Seq::<char>::empty() + s =~= s);
    assert(seq![Seq::<char>::empty()].update(0, Seq::<char>::empty() + s) =~= seq![s]);
}

/// Whether the first entry of `t` on `dir` is entry `i` and has `mode`
/// among its comma-separated options.
pub open spec fn first_mount_with(t: Seq<MountEntry>, dir: Seq<char>, mode: Seq<char>, i: int) -> bool {
    &&& 0 <= i < t.len()
    &&& t[i].mnt_dir@ == dir
    &&& forall|j: int| 0 <= j < i ==> (#[trigger] t[j]).mnt_dir@ != dir
    &&& opt_fields(t[i].mnt_opts@).contains(mode)
}

/// Law: with a non-empty `mode`, `ismnt` answers 1 exactly when some entry
/// is mounted on `dir` and the first such entry has `mode` as one of its
/// comma-separated options, and 0 otherwise; a table that could not be
/// read gives 0.
pub proof fn lemma_ismnt_mode(t: Seq<MountEntry>, dir: Seq<char>, mode: Seq<char>)
    requires
        mode.len() > 0,
    ensures
        spec_ismnt(None, dir, mode) == 0,
        (spec_ismnt(Some(t), dir, mode) == 1) == (exists|i: int| first_mount_with(t, dir, mode, i)),
        spec_ismnt(Some(t), dir, mode) == 0 || spec_ismnt(Some(t), dir, mode) == 1,
{
    if exists|i: int| first_mount(t, dir, i) {
        let c = choose|i: int| first_mount(t, dir, i);
        assert(spec_ismnt(Some(t), dir, mode) == (if opt_fields(t[c].mnt_opts@).contains(mode) {
            1i32
        } else {
            0i32
        }));
        if opt_fields(t[c].mnt_opts@).contains(mode) {
            assert(first_mount_with(t, dir, mode, c));
        }
        if exists|i: int| first_mount_with(t, dir, mode, i) {
            let i = choose|i: int| first_mount_with(t, dir, mode, i);
            assert(first_mount(t, dir, i));
            lemma_first_mount_unique(t, dir, c, i);
            assert(spec_ismnt(Some(t), dir, mode) == 1);
        }
    } else {
        if exists|i: int| first_mount_with(t, dir, mode, i) {
            let i = choose|i: int| first_mount_with(t, dir, mode, i);
            assert(first_mount(t, dir, i));
        }
    }
}

} // verus!
