//! The in-memory cache of the scheduled jobs table, keyed by job id.

use vstd::prelude::*;
use vstd::string::*;
use std::collections::HashMap;
use std::sync::Arc;
use crate::external::clone_json;

verus! {

broadcast use vstd::std_specs::hash::group_hash_axioms;

/// A stored scheduled job.
#[derive(Debug)]
pub struct CrontabModel {
    pub id: i64,
    pub name: String,
    pub cron_expression: String,
    /// The job's kind, as stored JSON.
    pub cron_type: serde_json::Value,
    pub enable: bool,
    pub last_run_time: Option<i64>,
}

/// Shares a cached job with `Arc::clone`, which hands out another handle
/// to the same job; the contract claims that it is the same job.
#[verifier::external_body]
fn share_model(m: &Arc<CrontabModel>) -> (res: Arc<CrontabModel>)
    ensures
        *res == **m,
{
    Arc::clone(m)
}

/// The jobs of a list by id; of two jobs with one id the later one stays.
pub open spec fn models_by_id(models: Seq<CrontabModel>) -> Map<i64, CrontabModel>
    decreases models.len(),
{
    if models.len() == 0 {
        Map::empty()
    } else {
        models_by_id(models.drop_last()).insert(models.last().id, models.last())
    }
}

/// The jobs of a list by id hold a job under an id exactly when some row of
/// the list has that id, and then the last such row: what the cache holds
/// after it is built or reloaded from those rows.
pub proof fn lemma_models_by_id_holds_last_row(models: Seq<CrontabModel>, k: i64)
    ensures
        models_by_id(models).contains_key(k) <==> exists|i: int| 0 <= i < models.len() && has_id(models, i, k),
        models_by_id(models).contains_key(k) ==> exists|i: int|
            0 <= i < models.len() && has_id(models, i, k) && models_by_id(models)[k] == models[i]
                && no_later_id(models, i, k),
    decreases models.len(),
{
    if models.len() > 0 {
        let init = models.drop_last();
        let last = models.len() - 1;
        lemma_models_by_id_holds_last_row(init, k);
        if models[last].id == k {
            assert(has_id(models, last, k));
            assert(no_later_id(models, last, k));
        } else {
            assert(models_by_id(models).contains_key(k) == models_by_id(init).contains_key(k));
            if exists|i: int| 0 <= i < models.len() && has_id(models, i, k) {
                let i = choose|i: int| 0 <= i < models.len() && has_id(models, i, k);
                assert(i < last);
                assert(has_id(init, i, k));
            }
            if models_by_id(init).contains_key(k) {
                let i = choose|i: int|
                    0 <= i < init.len() && has_id(init, i, k) && models_by_id(init)[k] == init[i]
                        && no_later_id(init, i, k);
                assert(has_id(models, i, k));
                assert(models[i] == init[i]);
                assert(models_by_id(models)[k] == models_by_id(init)[k]);
                assert forall|j: int| i < j < models.len() implies models[j].id != k by {
                    if j < last {
                        assert(models[j] == init[j]);
                    }
                }
                assert(no_later_id(models, i, k));
            }
        }
    }
}

/// Whether the row at `i` has id `k`.
pub open spec fn has_id(models: Seq<CrontabModel>, i: int, k: i64) -> bool {
    models[i].id == k
}

/// Whether no row after `i` has id `k`.
pub open spec fn no_later_id(models: Seq<CrontabModel>, i: int, k: i64) -> bool {
    forall|j: int| i < j < models.len() ==> models[j].id != k
}

/// A job with its last run time set.
pub open spec fn with_last_run(m: CrontabModel, timestamp: i64) -> CrontabModel {
    CrontabModel { last_run_time: Some(timestamp), ..m }
}

/// The message of a failed load of the jobs table: `Failed to load
/// crontab: ` when the cache is set up, `Failed to reload crontab: ` when it
/// is reloaded, then the database's reason.
pub open spec fn load_error_message(reason: Seq<char>, reloading: bool) -> Seq<char> {
    if reloading {
        "Failed to reload crontab: "@ + reason
    } else {
        "Failed to load crontab: "@ + reason
    }
}

/// The error of a failed load of the jobs table.
pub fn crontab_load_error(reason: &str, reloading: bool) -> (res: String)
    ensures
        res@ == load_error_message(reason@, reloading),
{
    let mut msg = if reloading {
        String::from_str("Failed to reload crontab: ")
    } else {
        String::from_str("Failed to load crontab: ")
    };
    msg.append(reason);
    msg
}

/// All jobs, by id.
pub struct CrontabCache {
    by_id: HashMap<i64, Arc<CrontabModel>>,
}

impl CrontabCache {
    /// The cached jobs, by id.
    pub closed spec fn view(&self) -> Map<i64, CrontabModel> {
        self.by_id@.map_values(|a: Arc<CrontabModel>| *a)
    }

    /// Every job is cached under its own id.
    #[verifier::type_invariant]
    closed spec fn keyed_by_id(&self) -> bool {
        forall|k: i64| #[trigger] self.by_id@.contains_key(k) ==> self.by_id@[k].id == k
    }

    /// Builds the cache from the rows of the jobs table.
    pub fn from_models(models: Vec<CrontabModel>) -> (res: CrontabCache)
        ensures
            res.view() == models_by_id(models@),
    {
        let ghost all = models@;
        let mut by_id: HashMap<i64, Arc<CrontabModel>> = HashMap::with_capacity(models.len());
        for model in it: models.into_iter()
            invariant
                it.seq() == all,
                by_id@.map_values(|a: Arc<CrontabModel>| *a) == models_by_id(all.take(it.index() as int)),
                forall|k: i64| #[trigger] by_id@.contains_key(k) ==> by_id@[k].id == k,
        {
            let ghost before = by_id@;
            let ghost idx = it.index();
            let id = model.id;
            by_id.insert(id, Arc::new(model));
            proof {
                assert(all.take(idx + 1).drop_last() =~= all.take(idx as int));
                assert(by_id@.map_values(|a: Arc<CrontabModel>| *a) =~= models_by_id(all.take(idx + 1)));
            }
        }
        assert(all.take(all.len() as int) =~= all);
        CrontabCache { by_id }
    }

    /// Replaces every cached job with the rows of the jobs table.
    pub fn reload(&mut self, models: Vec<CrontabModel>)
        ensures
            final(self).view() == models_by_id(models@),
    {
        *self = CrontabCache::from_models(models);
    }

    /// All enabled jobs, each once, in no particular order.
    pub fn get_enabled(&self) -> (res: Vec<Arc<CrontabModel>>)
        ensures
            forall|i: int| 0 <= i < res@.len() ==> {
                &&& self.view().contains_key(res@[i].id)
                &&& self.view()[res@[i].id] == *res@[i]
                &&& res@[i].enable
            },
            forall|k: i64| self.view().contains_key(k) && #[trigger] self.view()[k].enable ==> exists|i: int|
                0 <= i < res@.len() && *res@[i] == self.view()[k],
            forall|i: int, j: int| 0 <= i < j < res@.len() ==> res@[i].id != res@[j].id,
    {
        proof {
            use_type_invariant(self);
        }
        let mut out: Vec<Arc<CrontabModel>> = Vec::new();
        let ghost m = self.by_id@;
        let ghost mut done: Set<i64> = Set::empty();
        for (id, model) in it: self.by_id.iter()
            invariant
                m == self.by_id@,
                forall|k: i64| #[trigger] m.contains_key(k) ==> m[k].id == k,
                it.seq().no_duplicates(),
                forall|i: int| 0 <= i < it.seq().len() ==> m.contains_key(*(#[trigger] it.seq()[i]).0) && m[*it.seq()[i].0] == *it.seq()[i].1,
                forall|k: i64| #[trigger] m.contains_key(k) ==> it.seq().contains((&k, &m[k])),
                forall|k: i64| #[trigger] done.contains(k) <==> exists|i: int| 0 <= i < it.index() && *(#[trigger] it.seq()[i]).0 == k,
                forall|i: int| 0 <= i < out@.len() ==> {
                    &&& m.contains_key((#[trigger] out@[i]).id)
                    &&& *m[out@[i].id] == *out@[i]
                    &&& out@[i].enable
                    &&& done.contains(out@[i].id)
                },
                forall|k: i64| #[trigger] done.contains(k) && (*m[k]).enable ==> exists|j: int| 0 <= j < out@.len() && *out@[j] == *m[k],
                it.index() == it.seq().len() ==> forall|k: i64| #[trigger] m.contains_key(k) ==> done.contains(k),
                forall|i: int, j: int| 0 <= i < j < out@.len() ==> out@[i].id != out@[j].id,
        {
            let ghost idx = it.index();
            let ghost seq = it.seq();
            let ghost old_out = out@;
            let ghost old_done = done;
            let key: i64 = *id;
            if model.enable {
                out.push(share_model(model));
            }
            proof {
                done = done.insert(key);
            }
            proof {
                assert(*seq[idx as int].0 == key);
                assert(m[key] == *model);
                assert forall|i: int| 0 <= i < idx implies *(#[trigger] seq[i]).0 != key by {
                    if *seq[i].0 == key {
                        assert(seq[i] == seq[idx as int]);
                    }
                }
                assert(!old_done.contains(key));
                assert forall|k: i64| #[trigger] done.contains(k) <==> exists|i: int| 0 <= i < idx + 1 && *(#[trigger] seq[i]).0 == k by {
                    if done.contains(k) && k != key {
                        assert(old_done.contains(k));
                    }
                    if exists|i: int| 0 <= i < idx + 1 && *seq[i].0 == k {
                        let i = choose|i: int| 0 <= i < idx + 1 && *seq[i].0 == k;
                        if i < idx {
                            assert(old_done.contains(k));
                        }
                    }
                }
                assert forall|j: int| model.enable && 0 <= j < old_out.len() implies out@[j].id != key by {
                    assert(out@[j] == old_out[j]);
                    assert(old_done.contains(old_out[j].id));
                }
                assert forall|k: i64| #[trigger] done.contains(k) && (*m[k]).enable implies exists|j: int| 0 <= j < out@.len() && *out@[j] == *m[k] by {
                    if k == key {
                        assert(*out@[old_out.len() as int] == *m[k]);
                    } else {
                        assert(old_done.contains(k));
                        let j = choose|j: int| 0 <= j < old_out.len() && *old_out[j] == *m[k];
                        assert(out@[j] == old_out[j]);
                    }
                }
                assert forall|k: i64| idx + 1 == seq.len() && #[trigger] m.contains_key(k) implies done.contains(k) by {
                    assert(seq.contains((&k, &m[k])));
                    let i = choose|i: int| 0 <= i < seq.len() && seq[i] == (&k, &m[k]);
                    assert(*seq[i].0 == k);
                }
            }
        }
        out
    }

    /// Sets the last run time of one cached job; the table itself is written
    /// elsewhere. An id that no job has changes nothing.
    pub fn update_last_run_time(&mut self, id: i64, timestamp: i64)
        ensures
            old(self).view().contains_key(id) ==> final(self).view() == old(self).view().insert(
                id,
                with_last_run(old(self).view()[id], timestamp),
            ),
            !old(self).view().contains_key(id) ==> final(self).view() == old(self).view(),
    {
        proof {
            use_type_invariant(&*self);
        }
        let updated = match self.by_id.get(&id) {
            Some(old) => Some(
                CrontabModel {
                    id: old.id,
                    name: old.name.clone(),
                    cron_expression: old.cron_expression.clone(),
                    cron_type: clone_json(&old.cron_type),
                    enable: old.enable,
                    last_run_time: Some(timestamp),
                },
            ),
            None => None,
        };
        if let Some(model) = updated {
            let ghost before = self.by_id@;
            let mut by_id: HashMap<i64, Arc<CrontabModel>> = HashMap::new();
            std::mem::swap(&mut by_id, &mut self.by_id);
            by_id.insert(id, Arc::new(model));
            self.by_id = by_id;
            proof {
                assert(self.by_id@.map_values(|a: Arc<CrontabModel>| *a) =~= before.map_values(
                    |a: Arc<CrontabModel>| *a,
                ).insert(id, with_last_run(*before[id], timestamp)));
            }
        }
    }
}

} // verus!
