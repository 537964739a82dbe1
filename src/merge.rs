use vstd::prelude::*;

use crate::document::LoadError;
use crate::env_map::EnvMap;

verus! {

/// What one file adds to the environment: all its entries when it loaded,
/// nothing when it failed.
pub open spec fn contribution(load: Result<EnvMap, LoadError>) -> Map<Seq<char>, Seq<char>> {
    match load {
        Ok(m) => m@,
        Err(_) => Map::empty(),
    }
}

/// The environment of the files in order, a later file over an earlier one.
pub open spec fn merged(loads: Seq<Result<EnvMap, LoadError>>) -> Map<Seq<char>, Seq<char>>
    decreases loads.len(),
{
    if loads.len() == 0 {
        Map::empty()
    } else {
        merged(loads.drop_last()).union_prefer_right(contribution(loads.last()))
    }
}

/// Every loaded map is well formed.
pub open spec fn loads_wf(loads: Seq<Result<EnvMap, LoadError>>) -> bool {
    forall|i: int| 0 <= i < loads.len() ==> (#[trigger] loads[i] matches Ok(m) ==> m.wf())
}

/// The warnings for the files that failed, in order, each `{path} ignored:
/// {reason}`; none when silenced.
pub open spec fn warnings_spec(
    files: Seq<String>,
    loads: Seq<Result<EnvMap, LoadError>>,
    silent: bool,
) -> Seq<Seq<char>>
    decreases loads.len(),
{
    if silent || loads.len() == 0 {
        Seq::empty()
    } else {
        let prev = warnings_spec(files, loads.drop_last(), silent);
        match loads.last() {
            Ok(_) => prev,
            Err(e) => prev.push(
                files[loads.len() - 1]@ + " ignored: "@ + e.message_spec(),
            ),
        }
    }
}

/// Merges the outcomes of loading each file, in the order the files were
/// given: a later file's value wins, and a failed file adds nothing.
pub fn merge_env(loads: &Vec<Result<EnvMap, LoadError>>) -> (r: EnvMap)
    requires
        loads_wf(loads@),
    ensures
        r.wf(),
        r@ == merged(loads@),
{
    let mut map = EnvMap::new();
    let n = loads.len();
    let mut i: usize = 0;
    while i < n
        invariant
            n == loads@.len(),
            0 <= i <= n,
            loads_wf(loads@),
            map.wf(),
            map@ == merged(loads@.take(i as int)),
        decreases n - i,
    {
        let ghost t = loads@.take(i as int + 1);
        proof {
            assert(t.drop_last() =~= loads@.take(i as int));
            assert(t.last() == loads@[i as int]);
        }
        match &loads[i] {
            Ok(m) => {
                assert(loads@[i as int] matches Ok(m) ==> m.wf());
                map.extend(m);
            },
            Err(_) => {
                assert(map@ =~= merged(t));
            },
        }
        i = i + 1;
    }
    assert(loads@.take(n as int) =~= loads@);
    map
}

/// The warning lines for the files that failed to load, unless silenced.
pub fn warnings(files: &Vec<String>, loads: &Vec<Result<EnvMap, LoadError>>, silent: bool) -> (r:
    Vec<String>)
    requires
        files@.len() == loads@.len(),
    ensures
        r@.map_values(|s: String| s@) == warnings_spec(files@, loads@, silent),
{
    let mut out: Vec<String> = Vec::new();
    if silent {
        assert(out@.map_values(|s: String| s@) =~= warnings_spec(files@, loads@, silent));
        return out;
    }
    let n = loads.len();
    let mut i: usize = 0;
    while i < n
        invariant
            n == loads@.len(),
            files@.len() == n,
            !silent,
            0 <= i <= n,
            out@.map_values(|s: String| s@) == warnings_spec(files@, loads@.take(i as int), silent),
        decreases n - i,
    {
        let ghost t = loads@.take(i as int + 1);
        let ghost before = out@;
        proof {
            assert(t.drop_last() =~= loads@.take(i as int));
            assert(t.last() == loads@[i as int]);
        }
        match &loads[i] {
            Ok(_) => {},
            Err(e) => {
                let mut line = files[i].clone();
                line.append(" ignored: ");
                let msg = e.message();
                line.append(msg.as_str());
                out.push(line);
                proof {
                    assert(out@.drop_last() == before);
                    assert(out@.map_values(|s: String| s@) =~= before.map_values(|s: String| s@).push(line@));
                }
            },
        }
        i = i + 1;
    }
    assert(loads@.take(n as int) =~= loads@);
    out
}

/// A file that fails to load changes nothing: taking it out of the list
/// gives the same environment.
pub proof fn lemma_failed_file_adds_nothing(loads: Seq<Result<EnvMap, LoadError>>, i: int)
    requires
        0 <= i < loads.len(),
        loads[i] is Err,
    ensures
        merged(loads) == merged(loads.remove(i)),
    decreases loads.len(),
{
    let n = loads.len();
    if i == n - 1 {
        assert(loads.remove(i) =~= loads.drop_last());
        assert(merged(loads) =~= merged(loads.drop_last()));
    } else {
        let init = loads.drop_last();
        assert(loads.remove(i).drop_last() =~= init.remove(i));
        assert(loads.remove(i).last() == loads.last());
        assert(init[i] == loads[i]);
        lemma_failed_file_adds_nothing(init, i);
    }
}

/// A name ends with the value that the last file defining it gave it.
pub proof fn lemma_last_write_wins(loads: Seq<Result<EnvMap, LoadError>>, i: int, k: Seq<char>)
    requires
        0 <= i < loads.len(),
        contribution(loads[i]).contains_key(k),
        forall|j: int| i < j < loads.len() ==> !(#[trigger] contribution(loads[j])).contains_key(k),
    ensures
        merged(loads).contains_key(k),
        merged(loads)[k] == contribution(loads[i])[k],
    decreases loads.len(),
{
    let n = loads.len();
    let init = loads.drop_last();
    if i < n - 1 {
        assert(init[i] == loads[i]);
        assert forall|j: int| i < j < init.len() implies !(#[trigger] contribution(init[j])).contains_key(k) by {
            assert(init[j] == loads[j]);
        }
        lemma_last_write_wins(init, i, k);
        assert(!contribution(loads[n - 1]).contains_key(k));
    }
}

/// A name that no file defines stays unset.
pub proof fn lemma_unset_stays_unset(loads: Seq<Result<EnvMap, LoadError>>, k: Seq<char>)
    requires
        forall|j: int| 0 <= j < loads.len() ==> !(#[trigger] contribution(loads[j])).contains_key(k),
    ensures
        !merged(loads).contains_key(k),
    decreases loads.len(),
{
    if loads.len() > 0 {
        let init = loads.drop_last();
        assert forall|j: int| 0 <= j < init.len() implies !(#[trigger] contribution(init[j])).contains_key(k) by {
            assert(init[j] == loads[j]);
        }
        lemma_unset_stays_unset(init, k);
        assert(!contribution(loads[loads.len() - 1]).contains_key(k));
    }
}

} // verus!
