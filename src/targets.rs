use vstd::prelude::*;

verus! {

/// The name under which the remote index is requested among the targets.
pub open spec fn remote_marker() -> Seq<char> {
    seq!['a', 'u', 'r']
}

/// The targets that a listing works on: the given ones, or, when none is
/// given, every local database followed by the remote index.
pub open spec fn expanded_targets(targets: Seq<Seq<char>>, dbs: Seq<Seq<char>>) -> Seq<Seq<char>> {
    if targets.len() == 0 {
        dbs.push(remote_marker())
    } else {
        targets
    }
}

/// The targets handed to the local package manager: every expanded target
/// but the remote marker, in their order.
pub open spec fn local_targets(targets: Seq<Seq<char>>, dbs: Seq<Seq<char>>) -> Seq<Seq<char>> {
    expanded_targets(targets, dbs).filter(|t: Seq<char>| t != remote_marker())
}

/// Whether the remote index is to be listed.
pub open spec fn remote_requested(targets: Seq<Seq<char>>) -> bool {
    targets.len() == 0 || targets.contains(remote_marker())
}

/// The views of a list of strings.
pub open spec fn names(v: Seq<String>) -> Seq<Seq<char>> {
    v.map_values(|s: String| s@)
}

/// What a listing does: the local databases to hand to the package manager,
/// and whether the remote index is listed too.
pub struct ListPlan {
    pub local: Vec<String>,
    pub remote: bool,
}

/// The remote marker as a string.
pub fn remote_marker_string() -> (r: String)
    ensures
        r@ == remote_marker(),
{
    let r = String::from_str("aur");
    proof {
        reveal_strlit("aur");
    }
    assert(r@ =~= remote_marker());
    r
}

/// Splits the requested targets into the local databases to list and the
/// remote index. No targets means every database in `dbs` and the remote
/// index; the remote marker never reaches the local part, however often it
/// is given; unknown names are passed on unchanged.
pub fn list(targets: &Vec<String>, dbs: &Vec<String>) -> (r: ListPlan)
    ensures
        names(r.local@) == local_targets(names(targets@), names(dbs@)),
        r.remote == remote_requested(names(targets@)),
{
    let marker = remote_marker_string();
    let mut expanded: Vec<String> = Vec::new();
    if targets.len() == 0 {
        let mut j: usize = 0;
        while j < dbs.len()
            invariant
                j <= dbs@.len(),
                names(expanded@) == names(dbs@.subrange(0, j as int)),
            decreases dbs@.len() - j,
        {
            let ghost prev = expanded@;
            expanded.push(dbs[j].clone());
            proof {
                assert(expanded@ == prev.push(dbs@[j as int]));
                assert(names(expanded@) =~= names(prev).push(dbs@[j as int]@));
                assert(dbs@.subrange(0, j + 1) =~= dbs@.subrange(0, j as int).push(dbs@[j as int]));
                assert(names(expanded@) =~= names(dbs@.subrange(0, j + 1)));
            }
            j = j + 1;
        }
        assert(dbs@.subrange(0, dbs@.len() as int) =~= dbs@);
        expanded.push(marker.clone());
        assert(names(expanded@) =~= names(dbs@).push(remote_marker()));
    } else {
        expanded = targets.clone();
        assert(names(expanded@) =~= names(targets@));
    }
    let ghost all = names(expanded@);
    assert(all == expanded_targets(names(targets@), names(dbs@)));
    let ghost keep = |t: Seq<char>| t != remote_marker();
    let mut local: Vec<String> = Vec::new();
    let mut has_remote = targets.len() == 0;
    let mut i: usize = 0;
    while i < expanded.len()
        invariant
            i <= expanded@.len(),
            all == names(expanded@),
            marker@ == remote_marker(),
            keep == (|t: Seq<char>| t != remote_marker()),
            names(local@) == names(expanded@.subrange(0, i as int)).filter(keep),
            targets@.len() > 0 ==> expanded@ == targets@,
            has_remote == (targets@.len() == 0 || names(expanded@.subrange(0, i as int)).contains(remote_marker())),
        decreases expanded@.len() - i,
    {
        let t = &expanded[i];
        let ghost before = names(expanded@.subrange(0, i as int));
        let ghost after = names(expanded@.subrange(0, i + 1));
        assert(after =~= before.push(t@));
        assert(after.drop_last() =~= before);
        assert(after.last() == t@);
        reveal(Seq::filter);
        assert(after.filter(keep) == (if keep(t@) {
            before.filter(keep).push(t@)
        } else {
            before.filter(keep)
        }));
        if *t == marker {
            has_remote = true;
            assert(after[i as int] == remote_marker());
        } else {
            local.push(t.clone());
            assert(names(local@) =~= before.filter(keep).push(t@));
            proof {
                if before.contains(remote_marker()) {
                    let k = choose|k: int| 0 <= k < before.len() && before[k] == remote_marker();
                    assert(after[k] == remote_marker());
                }
                if after.contains(remote_marker()) {
                    let k = choose|k: int| 0 <= k < after.len() && after[k] == remote_marker();
                    assert(before[k] == remote_marker());
                }
            }
        }
        proof {
            if !has_remote || *t == marker {
                if after.contains(remote_marker()) {
                    let k = choose|k: int| 0 <= k < after.len() && after[k] == remote_marker();
                    if k < i {
                        assert(before[k] == remote_marker());
                    }
                }
            }
        }
        i = i + 1;
    }
    assert(expanded@.subrange(0, expanded@.len() as int) =~= expanded@);
    ListPlan { local, remote: has_remote }
}

/// A filter that keeps every element returns the sequence unchanged.
proof fn lemma_filter_keeps_all(s: Seq<Seq<char>>, keep: spec_fn(Seq<char>) -> bool)
    requires
        forall|i: int| 0 <= i < s.len() ==> keep(s[i]),
    ensures
        s.filter(keep) == s,
    decreases s.len(),
{
    reveal(Seq::filter);
    if s.len() > 0 {
        lemma_filter_keeps_all(s.drop_last(), keep);
        assert(s.drop_last().push(s.last()) =~= s);
    }
}

/// With no targets, every local database is listed, in its order, and so is
/// the remote index (given that no local database bears the remote marker's
/// name).
pub proof fn lemma_no_targets_lists_everything(dbs: Seq<Seq<char>>)
    requires
        !dbs.contains(remote_marker()),
    ensures
        local_targets(Seq::empty(), dbs) == dbs,
        remote_requested(Seq::empty()),
{
    let keep = |t: Seq<char>| t != remote_marker();
    let all = dbs.push(remote_marker());
    reveal(Seq::filter);
    assert(all.drop_last() =~= dbs);
    assert forall|i: int| 0 <= i < dbs.len() implies keep(dbs[i]) by {
        if dbs[i] == remote_marker() {
            assert(dbs.contains(remote_marker()));
        }
    }
    lemma_filter_keeps_all(dbs, keep);
}

/// Targets that hold the remote marker exactly once, beside other names:
/// the local part is those other names, one fewer than the targets, and the
/// remote index is listed.
pub proof fn lemma_single_marker_dropped(targets: Seq<Seq<char>>, i: int)
    requires
        0 <= i < targets.len(),
        targets[i] == remote_marker(),
        forall|j: int| 0 <= j < targets.len() && j != i ==> targets[j] != remote_marker(),
    ensures
        local_targets(targets, Seq::empty()) == targets.remove(i),
        local_targets(targets, Seq::empty()).len() == targets.len() - 1,
        remote_requested(targets),
{
    let keep = |t: Seq<char>| t != remote_marker();
    let front = targets.subrange(0, i);
    let back = targets.subrange(i + 1, targets.len() as int);
    assert(targets =~= front + seq![targets[i]] + back);
    Seq::filter_distributes_over_add(front + seq![targets[i]], back, keep);
    Seq::filter_distributes_over_add(front, seq![targets[i]], keep);
    assert forall|j: int| 0 <= j < front.len() implies keep(front[j]) by {
        assert(front[j] == targets[j]);
    }
    assert forall|j: int| 0 <= j < back.len() implies keep(back[j]) by {
        assert(back[j] == targets[i + 1 + j]);
    }
    lemma_filter_keeps_all(front, keep);
    lemma_filter_keeps_all(back, keep);
    reveal(Seq::filter);
    assert(seq![targets[i]].drop_last() =~= Seq::<Seq<char>>::empty());
    assert(Seq::<Seq<char>>::empty().filter(keep) =~= Seq::<Seq<char>>::empty());
    assert(seq![targets[i]].last() == remote_marker());
    assert(seq![targets[i]].filter(keep) =~= Seq::<Seq<char>>::empty());
    assert(targets.remove(i) =~= front + back);
    assert(targets.contains(remote_marker()));
}

/// Targets that do not name the remote marker go to the local package
/// manager unchanged, and the remote index is not listed.
pub proof fn lemma_without_marker_unchanged(targets: Seq<Seq<char>>, dbs: Seq<Seq<char>>)
    requires
        targets.len() > 0,
        !targets.contains(remote_marker()),
    ensures
        local_targets(targets, dbs) == targets,
        !remote_requested(targets),
{
    let keep = |t: Seq<char>| t != remote_marker();
    assert forall|i: int| 0 <= i < targets.len() implies keep(targets[i]) by {
        if targets[i] == remote_marker() {
            assert(targets.contains(remote_marker()));
        }
    }
    lemma_filter_keeps_all(targets, keep);
}

} // verus!
