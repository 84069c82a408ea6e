//! The human-readable report: one line per present field, a label
//! left-padded to a fixed column width followed by the value, in the
//! fixed order Time, User, Dist, Krnl, Memory, Battery.

use vstd::prelude::*;
use crate::snapshot::SnapshotView;
use crate::snapshot::SystemSnapshot;

verus! {

/// `"Time:"` padded to eight columns, plus the separating blank.
pub open spec fn spec_label_time() -> Seq<char> {
    seq!['T', 'i', 'm', 'e', ':', ' ', ' ', ' ', ' ']
}

pub open spec fn spec_label_user() -> Seq<char> {
    seq!['U', 's', 'e', 'r', ':', ' ', ' ', ' ', ' ']
}

pub open spec fn spec_label_dist() -> Seq<char> {
    seq!['D', 'i', 's', 't', ':', ' ', ' ', ' ', ' ']
}

pub open spec fn spec_label_krnl() -> Seq<char> {
    seq!['K', 'r', 'n', 'l', ':', ' ', ' ', ' ', ' ']
}

pub open spec fn spec_label_memory() -> Seq<char> {
    seq!['M', 'e', 'm', 'o', 'r', 'y', ':', ' ', ' ']
}

pub open spec fn spec_label_battery() -> Seq<char> {
    seq!['B', 'a', 't', 't', 'e', 'r', 'y', ':', ' ']
}

/// One report line: label, value, newline.
pub open spec fn spec_line(label: Seq<char>, value: Seq<char>) -> Seq<char> {
    label + value + seq!['\n']
}

/// The lines of the report, in their fixed order; an absent field
/// contributes no line.
pub open spec fn spec_human_lines(v: SnapshotView) -> Seq<Seq<char>> {
    seq![spec_line(spec_label_time(), v.time), spec_line(spec_label_user(), v.user)] + (match v
        .distro {
        Some(d) => seq![spec_line(spec_label_dist(), d)],
        None => Seq::empty(),
    }) + (match v.arch {
        Some(a) => seq![spec_line(spec_label_krnl(), a)],
        None => Seq::empty(),
    }) + seq![spec_line(spec_label_memory(), v.memory)] + (match v.battery {
        Some(b) => seq![spec_line(spec_label_battery(), b)],
        None => Seq::empty(),
    })
}

pub open spec fn spec_concat_all(ls: Seq<Seq<char>>) -> Seq<char>
    decreases ls.len(),
{
    if ls.len() == 0 {
        Seq::empty()
    } else {
        ls[0] + spec_concat_all(ls.skip(1))
    }
}

/// The whole human-readable report: its lines, concatenated.
pub open spec fn spec_human(v: SnapshotView) -> Seq<char> {
    spec_concat_all(spec_human_lines(v))
}

/// The line for an optional field: empty when the field is absent.
pub open spec fn spec_opt_line(label: Seq<char>, o: Option<Seq<char>>) -> Seq<char> {
    match o {
        Some(x) => spec_line(label, x),
        None => Seq::empty(),
    }
}

proof fn lemma_concat_all_distrib(s1: Seq<Seq<char>>, s2: Seq<Seq<char>>)
    ensures
        spec_concat_all(s1 + s2) =~= spec_concat_all(s1) + spec_concat_all(s2),
    decreases s1.len(),
{
    if s1.len() == 0 {
        assert(s1 + s2 =~= s2);
        assert(spec_concat_all(s1) =~= Seq::<char>::empty());
    } else {
        assert((s1 + s2).skip(1) =~= s1.skip(1) + s2);
        assert((s1 + s2)[0] == s1[0]);
        lemma_concat_all_distrib(s1.skip(1), s2);
    }
}

proof fn lemma_concat_all_single(l: Seq<char>)
    ensures
        spec_concat_all(seq![l]) =~= l,
{
    let ls = seq![l];
    assert(ls.skip(1) =~= Seq::<Seq<char>>::empty());
    assert(spec_concat_all(Seq::<Seq<char>>::empty()) =~= Seq::<char>::empty());
    assert(spec_concat_all(ls) =~= ls[0] + spec_concat_all(ls.skip(1)));
}

proof fn lemma_concat_all_pair(a: Seq<char>, b: Seq<char>)
    ensures
        spec_concat_all(seq![a, b]) =~= a + b,
{
    assert(seq![a, b].skip(1) =~= seq![b]);
    lemma_concat_all_single(b);
}

proof fn lemma_concat_all_opt(label: Seq<char>, o: Option<Seq<char>>)
    ensures
        spec_concat_all(
            match o {
                Some(x) => seq![spec_line(label, x)],
                None => Seq::<Seq<char>>::empty(),
            },
        ) =~= spec_opt_line(label, o),
{
    match o {
        Some(x) => lemma_concat_all_single(spec_line(label, x)),
        None => {},
    }
}

/// The report, written out: the two fixed head lines, the optional
/// distribution and architecture lines, the memory line, and the
/// optional battery line.
pub proof fn lemma_human_unfold(v: SnapshotView)
    ensures
        spec_human(v) == spec_line(spec_label_time(), v.time) + spec_line(
            spec_label_user(),
            v.user,
        ) + spec_opt_line(spec_label_dist(), v.distro) + spec_opt_line(
            spec_label_krnl(),
            v.arch,
        ) + spec_line(spec_label_memory(), v.memory) + spec_opt_line(
            spec_label_battery(),
            v.battery,
        ),
{
    let head = seq![spec_line(spec_label_time(), v.time), spec_line(spec_label_user(), v.user)];
    let dpart = match v.distro {
        Some(d) => seq![spec_line(spec_label_dist(), d)],
        None => Seq::<Seq<char>>::empty(),
    };
    let apart = match v.arch {
        Some(a) => seq![spec_line(spec_label_krnl(), a)],
        None => Seq::<Seq<char>>::empty(),
    };
    let mpart = seq![spec_line(spec_label_memory(), v.memory)];
    let bpart = match v.battery {
        Some(b) => seq![spec_line(spec_label_battery(), b)],
        None => Seq::<Seq<char>>::empty(),
    };
    lemma_concat_all_distrib(head + dpart + apart + mpart, bpart);
    lemma_concat_all_distrib(head + dpart + apart, mpart);
    lemma_concat_all_distrib(head + dpart, apart);
    lemma_concat_all_distrib(head, dpart);
    lemma_concat_all_pair(spec_line(spec_label_time(), v.time), spec_line(spec_label_user(), v.user));
    lemma_concat_all_single(spec_line(spec_label_memory(), v.memory));
    lemma_concat_all_opt(spec_label_dist(), v.distro);
    lemma_concat_all_opt(spec_label_krnl(), v.arch);
    lemma_concat_all_opt(spec_label_battery(), v.battery);
    assert(spec_human(v) =~= spec_line(spec_label_time(), v.time) + spec_line(
        spec_label_user(),
        v.user,
    ) + spec_opt_line(spec_label_dist(), v.distro) + spec_opt_line(spec_label_krnl(), v.arch)
        + spec_line(spec_label_memory(), v.memory) + spec_opt_line(
        spec_label_battery(),
        v.battery,
    ));
}

/// Renders the snapshot as the human-readable report.
pub fn render_human_readable(info: &SystemSnapshot) -> (s: String)
    ensures
        s@ == spec_human(info@),
{
    proof {
        lemma_human_unfold(info@);
        reveal_strlit("Time:    ");
        reveal_strlit("User:    ");
        reveal_strlit("Dist:    ");
        reveal_strlit("Krnl:    ");
        reveal_strlit("Memory:  ");
        reveal_strlit("Battery: ");
    }
    let mut s = String::new();
    s.append("Time:    ");
    s.append(info.time.as_str());
    s.push('\n');
    s.append("User:    ");
    s.append(info.user.as_str());
    s.push('\n');
    match &info.distro {
        Some(d) => {
            s.append("Dist:    ");
            s.append(d.as_str());
            s.push('\n');
        },
        None => {},
    }
    match &info.arch {
        Some(a) => {
            s.append("Krnl:    ");
            s.append(a.as_str());
            s.push('\n');
        },
        None => {},
    }
    s.append("Memory:  ");
    s.append(info.memory.as_str());
    s.push('\n');
    match &info.battery {
        Some(b) => {
            s.append("Battery: ");
            s.append(b.as_str());
            s.push('\n');
        },
        None => {},
    }
    proof {
        assert(s@ =~= spec_human(info@));
    }
    s
}

/// `prefix` opens `s`.
pub open spec fn spec_starts_with(s: Seq<char>, prefix: Seq<char>) -> bool {
    s.len() >= prefix.len() && s.take(prefix.len() as int) == prefix
}

/// The human-readable report is never empty: it always opens with the
/// time line.
pub proof fn lemma_human_nonempty(v: SnapshotView)
    ensures
        spec_human(v).len() > 0,
{
    lemma_human_unfold(v);
}

/// In minimal mode (no distribution and no architecture collected) no
/// report line carries the Dist or Krnl label.
pub proof fn lemma_minimal_omits_dist_and_krnl(v: SnapshotView)
    requires
        v.distro is None,
        v.arch is None,
    ensures
        forall|i: int|
            0 <= i < spec_human_lines(v).len() ==> !spec_starts_with(
                #[trigger] spec_human_lines(v)[i],
                spec_label_dist(),
            ) && !spec_starts_with(spec_human_lines(v)[i], spec_label_krnl()),
{
    let ls = spec_human_lines(v);
    assert(ls =~= seq![
        spec_line(spec_label_time(), v.time),
        spec_line(spec_label_user(), v.user),
        spec_line(spec_label_memory(), v.memory),
    ] + (match v.battery {
        Some(b) => seq![spec_line(spec_label_battery(), b)],
        None => Seq::<Seq<char>>::empty(),
    }));
    assert forall|i: int| 0 <= i < ls.len() implies !spec_starts_with(
        #[trigger] ls[i],
        spec_label_dist(),
    ) && !spec_starts_with(ls[i], spec_label_krnl()) by {
        assert(ls[i][0] == 'T' || ls[i][0] == 'U' || ls[i][0] == 'M' || ls[i][0] == 'B');
        if spec_starts_with(ls[i], spec_label_dist()) {
            assert(ls[i][0] == 'D');
        }
        if spec_starts_with(ls[i], spec_label_krnl()) {
            assert(ls[i][0] == 'K');
        }
    }
}

/// With the battery suppressed no report line carries the Battery
/// label.
pub proof fn lemma_no_battery_omits_battery_line(v: SnapshotView)
    requires
        v.battery is None,
    ensures
        forall|i: int|
            0 <= i < spec_human_lines(v).len() ==> !spec_starts_with(
                #[trigger] spec_human_lines(v)[i],
                spec_label_battery(),
            ),
{
    let ls = spec_human_lines(v);
    assert forall|i: int| 0 <= i < ls.len() implies !spec_starts_with(
        #[trigger] ls[i],
        spec_label_battery(),
    ) by {
        assert(ls[i][0] == 'T' || ls[i][0] == 'U' || ls[i][0] == 'D' || ls[i][0] == 'K' || ls[i][0]
            == 'M');
        if spec_starts_with(ls[i], spec_label_battery()) {
            assert(ls[i][0] == 'B');
        }
    }
}

/// Two snapshots that agree on everything but the time render to
/// reports that differ at most in the opening time line.
pub proof fn lemma_idempotent_human(v1: SnapshotView, v2: SnapshotView)
    requires
        v1.user == v2.user,
        v1.distro == v2.distro,
        v1.arch == v2.arch,
        v1.memory == v2.memory,
        v1.battery == v2.battery,
    ensures
        spec_human_lines(v1).len() == spec_human_lines(v2).len(),
        spec_human_lines(v1).skip(1) == spec_human_lines(v2).skip(1),
        spec_human_lines(v1)[0] == spec_line(spec_label_time(), v1.time),
        spec_human_lines(v2)[0] == spec_line(spec_label_time(), v2.time),
{
    assert(spec_human_lines(v1).skip(1) =~= spec_human_lines(v2).skip(1));
}

} // verus!
