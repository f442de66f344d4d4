//! The tables of results and of pinned commits.

use vstd::prelude::*;
use vstd::string::StringExecFns;
use crate::crates::{Crate, CrateView, GitHubRepo, GitHubRepoView};
use crate::encoding::{base64_decoded, decode, string_from_utf8};
use crate::experiments::{Experiment, ExperimentChunk};
use crate::results::TestResult;
use crate::seqs::{
    count_where, entry_of, first_match, insert_all, key_in, keyed, keys_are_distinct,
    lemma_count_where_step, lemma_first_match_is, lemma_insert_all_push, lemma_insert_all_twice,
    lemma_put_all_keeps_keys_distinct, lemma_put_all_push, lemma_put_all_twice, lemma_table_filter, lemma_table_of_entries, lemma_table_push,
    lemma_table_update, put, put_all, table,
};
use crate::toolchain::Toolchain;

verus! {

/// One result as an agent reports it: the log is base64 text.
#[derive(Debug)]
pub struct TaskResult {
    pub krate: Crate,
    pub toolchain: Toolchain,
    pub result: TestResult,
    pub log: String,
}

/// What an agent reports in one message: results, and the commits at which
/// repositories were pinned.
#[derive(Debug)]
pub struct ProgressData {
    pub results: Vec<TaskResult>,
    pub shas: Vec<(GitHubRepo, String)>,
}

impl ProgressData {
    /// Appends what `other` holds to `self`.
    pub fn merge(&mut self, other: ProgressData)
        ensures
            final(self).results@ == old(self).results@ + other.results@,
            final(self).shas@ == old(self).shas@ + other.shas@,
    {
        let mut other = other;
        self.results.append(&mut other.results);
        self.shas.append(&mut other.shas);
    }
}

/// A result as it is loaded from the tables: what a [`TaskResult`] holds,
/// with its log as the bytes of the text.
pub struct LoadedResult {
    pub krate: CrateView,
    pub toolchain: Seq<char>,
    pub result: TestResult,
    pub log: Seq<u8>,
}

/// What a [`TaskResult`] holds, with its log as the bytes of the text.
pub open spec fn as_loaded() -> spec_fn(TaskResult) -> LoadedResult {
    |result: TaskResult|
        LoadedResult {
            krate: result.krate@,
            toolchain: result.toolchain@,
            result: result.result,
            log: vstd::utf8::encode_utf8(result.log@),
        }
}

/// A row of the table of results.
#[derive(Debug)]
pub struct ResultRow {
    pub experiment: String,
    pub krate: Crate,
    pub toolchain: Toolchain,
    pub result: TestResult,
    pub log: Vec<u8>,
}

/// A row of the table of pinned commits.
#[derive(Debug)]
pub struct ShaRow {
    pub experiment: String,
    pub repo: GitHubRepo,
    pub sha: String,
}

/// What identifies a result: the experiment, the crate and the toolchain.
pub struct ResultKey {
    pub experiment: Seq<char>,
    pub krate: CrateView,
    pub toolchain: Seq<char>,
}

/// What is stored of a result.
pub struct StoredResult {
    pub result: TestResult,
    pub log: Seq<u8>,
}

/// What identifies a pinned commit: the experiment and the repository.
pub struct ShaKey {
    pub experiment: Seq<char>,
    pub repo: GitHubRepoView,
}

/// The key of a row of results.
pub open spec fn result_key() -> spec_fn(ResultRow) -> ResultKey {
    |row: ResultRow|
        ResultKey { experiment: row.experiment@, krate: row.krate@, toolchain: row.toolchain@ }
}

/// What a row of results stores.
pub open spec fn result_value() -> spec_fn(ResultRow) -> StoredResult {
    |row: ResultRow| StoredResult { result: row.result, log: row.log@ }
}

/// The key of a row of pinned commits.
pub open spec fn sha_key() -> spec_fn(ShaRow) -> ShaKey {
    |row: ShaRow| ShaKey { experiment: row.experiment@, repo: row.repo@ }
}

/// The commit of a row of pinned commits.
pub open spec fn sha_value() -> spec_fn(ShaRow) -> Seq<char> {
    |row: ShaRow| row.sha@
}

/// The keys of results that belong to another experiment than `experiment`.
pub open spec fn other_experiment(experiment: Seq<char>) -> spec_fn(ResultKey) -> bool {
    |key: ResultKey| key.experiment != experiment
}

/// The keys of results other than `key`.
pub open spec fn other_result(key: ResultKey) -> spec_fn(ResultKey) -> bool {
    |k: ResultKey| k != key
}

/// The keys of pinned commits that belong to another experiment than
/// `experiment`.
pub open spec fn other_experiment_sha(experiment: Seq<char>) -> spec_fn(ShaKey) -> bool {
    |key: ShaKey| key.experiment != experiment
}

/// The rows of results of `experiment`.
pub open spec fn result_of(experiment: Seq<char>) -> spec_fn(ResultRow) -> bool {
    |row: ResultRow| row.experiment@ == experiment
}

/// The rows of results of `experiment` for `krate`.
pub open spec fn result_of_crate(experiment: Seq<char>, krate: CrateView) -> spec_fn(
    ResultRow,
) -> bool {
    |row: ResultRow| row.experiment@ == experiment && row.krate@ == krate
}

/// The rows of pinned commits of `experiment`.
pub open spec fn sha_of(experiment: Seq<char>) -> spec_fn(ShaRow) -> bool {
    |row: ShaRow| row.experiment@ == experiment
}

/// A row of pinned commits as a pair of repository and commit.
pub open spec fn sha_pair() -> spec_fn(ShaRow) -> (GitHubRepoView, Seq<char>) {
    |row: ShaRow| (row.repo@, row.sha@)
}

/// The results whose log is not valid base64.
pub open spec fn undecodable() -> spec_fn(TaskResult) -> bool {
    |result: TaskResult| base64_decoded(result.log@) is None
}

/// A reported result of `experiment` as an entry of the table of results.
pub open spec fn result_entry(experiment: Seq<char>) -> spec_fn(TaskResult) -> (
    ResultKey,
    StoredResult,
) {
    |result: TaskResult|
        (
            ResultKey { experiment, krate: result.krate@, toolchain: result.toolchain@ },
            StoredResult { result: result.result, log: base64_decoded(result.log@)->0 },
        )
}

/// A reported commit of `experiment` as an entry of the table of pinned
/// commits.
pub open spec fn sha_entry(experiment: Seq<char>) -> spec_fn((GitHubRepo, String)) -> (
    ShaKey,
    Seq<char>,
) {
    |pair: (GitHubRepo, String)| (ShaKey { experiment, repo: pair.0@ }, pair.1@)
}

/// What the tables hold: the rows of each table in their order, each as
/// its key and what is stored for it, and what is read from them: for each
/// key the result stored, and for each repository of an experiment the
/// commit it was pinned at, which are those of the first row of the key.
pub struct ResultsView {
    pub results: Map<ResultKey, StoredResult>,
    pub shas: Map<ShaKey, Seq<char>>,
    pub result_rows: Seq<(ResultKey, StoredResult)>,
    pub sha_rows: Seq<(ShaKey, Seq<char>)>,
}

/// The rows of the table of results, each as its key and what it stores.
pub open spec fn result_rows(rows: Seq<ResultRow>) -> Seq<(ResultKey, StoredResult)> {
    rows.map_values(entry_of(result_key(), result_value()))
}

/// The rows of the table of pinned commits, each as its key and its commit.
pub open spec fn sha_rows(rows: Seq<ShaRow>) -> Seq<(ShaKey, Seq<char>)> {
    rows.map_values(entry_of(sha_key(), sha_value()))
}

/// What the tables hold after `data` was stored for `experiment`. The results
/// are written one by one up to the first whose log is not valid base64; the
/// commits are written only if every log was valid. Each is written in
/// place of the first row of its key or, where there is no such row, at the
/// end of its table.
pub open spec fn stored(view: ResultsView, experiment: Seq<char>, data: ProgressData)
    -> ResultsView {
    let valid = first_match(data.results@, undecodable());
    ResultsView {
        results: insert_all(
            view.results,
            data.results@.take(valid).map_values(result_entry(experiment)),
        ),
        shas: if valid == data.results@.len() {
            insert_all(view.shas, data.shas@.map_values(sha_entry(experiment)))
        } else {
            view.shas
        },
        result_rows: put_all(
            view.result_rows,
            data.results@.take(valid).map_values(result_entry(experiment)),
        ),
        sha_rows: if valid == data.results@.len() {
            put_all(view.sha_rows, data.shas@.map_values(sha_entry(experiment)))
        } else {
            view.sha_rows
        },
    }
}

/// Storing the same report a second time leaves the tables as the first
/// time left them: the same rows, each where it was, and none more.
pub proof fn lemma_store_is_idempotent(view: ResultsView, experiment: Seq<char>, data: ProgressData)
    ensures
        stored(stored(view, experiment, data), experiment, data) == stored(
            view,
            experiment,
            data,
        ),
{
    let valid = first_match(data.results@, undecodable());
    lemma_insert_all_twice(
        view.results,
        data.results@.take(valid).map_values(result_entry(experiment)),
    );
    lemma_insert_all_twice(view.shas, data.shas@.map_values(sha_entry(experiment)));
    lemma_put_all_twice(
        view.result_rows,
        data.results@.take(valid).map_values(result_entry(experiment)),
    );
    lemma_put_all_twice(view.sha_rows, data.shas@.map_values(sha_entry(experiment)));
}

/// Tables in which no two rows have the same key stay such tables when a
/// report is stored: each result and each commit has one row, however often
/// it is reported.
pub proof fn lemma_store_keeps_one_row_per_key(
    view: ResultsView,
    experiment: Seq<char>,
    data: ProgressData,
)
    requires
        keys_are_distinct(view.result_rows),
        keys_are_distinct(view.sha_rows),
    ensures
        keys_are_distinct(stored(view, experiment, data).result_rows),
        keys_are_distinct(stored(view, experiment, data).sha_rows),
{
    let valid = first_match(data.results@, undecodable());
    lemma_put_all_keeps_keys_distinct(
        view.result_rows,
        data.results@.take(valid).map_values(result_entry(experiment)),
    );
    lemma_put_all_keeps_keys_distinct(view.sha_rows, data.shas@.map_values(sha_entry(experiment)));
}

/// What the tables hold after `data` was stored `times` times for
/// `experiment`.
pub open spec fn stored_times(
    view: ResultsView,
    experiment: Seq<char>,
    data: ProgressData,
    times: nat,
) -> ResultsView
    decreases times,
{
    if times == 0 {
        view
    } else {
        stored(stored_times(view, experiment, data, (times - 1) as nat), experiment, data)
    }
}

/// However often the same report is stored, the tables are as the first time
/// left them.
pub proof fn lemma_replay_is_harmless(
    view: ResultsView,
    experiment: Seq<char>,
    data: ProgressData,
    times: nat,
)
    requires
        times >= 1,
    ensures
        stored_times(view, experiment, data, times) == stored(view, experiment, data),
    decreases times,
{
    if times > 1 {
        lemma_replay_is_harmless(view, experiment, data, (times - 1) as nat);
        lemma_store_is_idempotent(view, experiment, data);
    } else {
        assert(stored_times(view, experiment, data, 0) == view);
    }
}

/// Why a report could not be stored.
#[derive(Debug, PartialEq, Eq, Clone, Copy, Structural)]
pub enum StoreError {
    /// The log of a result is not valid base64.
    InvalidLog,
}

/// The tables of results and of pinned commits.
#[derive(Debug)]
pub struct DatabaseDB {
    pub results: Vec<ResultRow>,
    pub shas: Vec<ShaRow>,
}

impl View for DatabaseDB {
    type V = ResultsView;

    open spec fn view(&self) -> ResultsView {
        ResultsView {
            results: table(self.results@, result_key(), result_value()),
            shas: table(self.shas@, sha_key(), sha_value()),
            result_rows: result_rows(self.results@),
            sha_rows: sha_rows(self.shas@),
        }
    }
}

impl DatabaseDB {
    /// Empty tables.
    pub fn new() -> (db: DatabaseDB)
        ensures
            db.results@.len() == 0,
            db.shas@.len() == 0,
            db@.results == Map::<ResultKey, StoredResult>::empty(),
            db@.shas == Map::<ShaKey, Seq<char>>::empty(),
    {
        let db = DatabaseDB { results: Vec::new(), shas: Vec::new() };
        proof {
            lemma_first_match_bounds_empty(db.results@);
            assert(db@.results =~= Map::<ResultKey, StoredResult>::empty());
            assert(db@.shas =~= Map::<ShaKey, Seq<char>>::empty());
        }
        db
    }

    /// The result stored for a key, if any.
    pub open spec fn result_at(&self, key: ResultKey) -> Option<StoredResult> {
        if self@.results.dom().contains(key) {
            Some(self@.results[key])
        } else {
            None
        }
    }

    fn result_row_is(
        &self,
        i: usize,
        experiment: &String,
        toolchain: &Toolchain,
        krate: &Crate,
    ) -> (same: bool)
        requires
            i < self.results@.len(),
        ensures
            same == keyed(
                result_key(),
                ResultKey { experiment: experiment@, krate: krate@, toolchain: toolchain@ },
            )(self.results@[i as int]),
    {
        let row = &self.results[i];
        row.experiment == *experiment && row.toolchain == *toolchain && row.krate == *krate
    }

    fn sha_row_is(&self, i: usize, experiment: &String, repo: &GitHubRepo) -> (same: bool)
        requires
            i < self.shas@.len(),
        ensures
            same == keyed(sha_key(), ShaKey { experiment: experiment@, repo: repo@ })(
                self.shas@[i as int],
            ),
    {
        let row = &self.shas[i];
        row.experiment == *experiment && row.repo == *repo
    }

    fn find_result(&self, experiment: &String, toolchain: &Toolchain, krate: &Crate) -> (at:
        usize)
        ensures
            at == first_match(
                self.results@,
                keyed(
                    result_key(),
                    ResultKey { experiment: experiment@, krate: krate@, toolchain: toolchain@ },
                ),
            ),
            at <= self.results@.len(),
            at < self.results@.len() ==> result_key()(self.results@[at as int]) == (ResultKey {
                experiment: experiment@,
                krate: krate@,
                toolchain: toolchain@,
            }),
            self.result_at(
                ResultKey { experiment: experiment@, krate: krate@, toolchain: toolchain@ },
            ) == if at < self.results@.len() {
                Some(result_value()(self.results@[at as int]))
            } else {
                None
            },
    {
        let ghost key = ResultKey { experiment: experiment@, krate: krate@, toolchain: toolchain@ };
        let mut i: usize = 0;
        while i < self.results.len() && !self.result_row_is(i, experiment, toolchain, krate)
            invariant
                i <= self.results.len(),
                key == (ResultKey { experiment: experiment@, krate: krate@, toolchain: toolchain@ }),
                forall|j: int| 0 <= j < i ==> !keyed(result_key(), key)(#[trigger] self.results@[j]),
            decreases self.results.len() - i,
        {
            i += 1;
        }
        proof {
            lemma_first_match_is(self.results@, keyed(result_key(), key), i as int);
        }
        i
    }

    fn find_sha(&self, experiment: &String, repo: &GitHubRepo) -> (at: usize)
        ensures
            at == first_match(
                self.shas@,
                keyed(sha_key(), ShaKey { experiment: experiment@, repo: repo@ }),
            ),
            at <= self.shas@.len(),
            at < self.shas@.len() ==> sha_key()(self.shas@[at as int]) == (ShaKey {
                experiment: experiment@,
                repo: repo@,
            }),
    {
        let ghost key = ShaKey { experiment: experiment@, repo: repo@ };
        let mut i: usize = 0;
        while i < self.shas.len() && !self.sha_row_is(i, experiment, repo)
            invariant
                i <= self.shas.len(),
                key == (ShaKey { experiment: experiment@, repo: repo@ }),
                forall|j: int| 0 <= j < i ==> !keyed(sha_key(), key)(#[trigger] self.shas@[j]),
            decreases self.shas.len() - i,
        {
            i += 1;
        }
        proof {
            lemma_first_match_is(self.shas@, keyed(sha_key(), key), i as int);
        }
        i
    }

    /// Stores a result under the name `experiment`: in the first row of the
    /// same crate and toolchain, in place of the result that was stored
    /// there, or in a new row at the end where there is no such row.
    pub fn store_result(
        &mut self,
        experiment: &String,
        krate: &Crate,
        toolchain: &Toolchain,
        res: TestResult,
        log: Vec<u8>,
    )
        ensures
            final(self)@.results == old(self)@.results.insert(
                ResultKey { experiment: experiment@, krate: krate@, toolchain: toolchain@ },
                StoredResult { result: res, log: log@ },
            ),
            final(self)@.result_rows == put(
                old(self)@.result_rows,
                (
                    ResultKey { experiment: experiment@, krate: krate@, toolchain: toolchain@ },
                    StoredResult { result: res, log: log@ },
                ),
            ),
            final(self).results@.len() == final(self)@.result_rows.len(),
            final(self).shas == old(self).shas,
            final(self).results@.len() == old(self).results@.len() + if old(self).result_at(
                ResultKey { experiment: experiment@, krate: krate@, toolchain: toolchain@ },
            ) is Some {
                0int
            } else {
                1int
            },
    {
        let at = self.find_result(experiment, toolchain, krate);
        let ghost entry = (
            ResultKey { experiment: experiment@, krate: krate@, toolchain: toolchain@ },
            StoredResult { result: res, log: log@ },
        );
        proof {
            lemma_table_of_entries(self.results@, result_key(), result_value());
        }
        if at < self.results.len() {
            proof {
                let row = ResultRow { result: res, log, ..self.results@[at as int] };
                lemma_table_update(self.results@, result_key(), result_value(), at as int, row);
                assert(self.results@.update(at as int, row).len() == self.results@.len());
                assert(result_rows(self.results@.update(at as int, row)) =~= put(
                    result_rows(self.results@),
                    entry,
                ));
            }
            self.results[at].result = res;
            self.results[at].log = log;
            assert(self.results@ =~= old(self).results@.update(
                at as int,
                ResultRow { result: res, log, ..old(self).results@[at as int] },
            ));
        } else {
            let row = ResultRow {
                experiment: experiment.clone(),
                krate: krate.clone(),
                toolchain: toolchain.clone(),
                result: res,
                log,
            };
            proof {
                lemma_table_push(self.results@, result_key(), result_value(), row);
                assert(result_rows(self.results@.push(row)) =~= put(
                    result_rows(self.results@),
                    entry,
                ));
            }
            self.results.push(row);
        }
    }

    /// Records the commit at which a repository was pinned for the experiment
    /// named `experiment`: in the first row of that repository, in place of
    /// the commit that was recorded there, or in a new row at the end where
    /// there is no such row.
    pub fn store_sha(&mut self, experiment: &String, repo: &GitHubRepo, sha: &str)
        ensures
            final(self)@.shas == old(self)@.shas.insert(
                ShaKey { experiment: experiment@, repo: repo@ },
                sha@,
            ),
            final(self)@.sha_rows == put(
                old(self)@.sha_rows,
                (ShaKey { experiment: experiment@, repo: repo@ }, sha@),
            ),
            final(self).shas@.len() == final(self)@.sha_rows.len(),
            final(self).results == old(self).results,
    {
        let at = self.find_sha(experiment, repo);
        let ghost entry = (ShaKey { experiment: experiment@, repo: repo@ }, sha@);
        let sha = String::from_str(sha);
        proof {
            lemma_table_of_entries(self.shas@, sha_key(), sha_value());
        }
        if at < self.shas.len() {
            proof {
                let row = ShaRow { sha, ..self.shas@[at as int] };
                lemma_table_update(self.shas@, sha_key(), sha_value(), at as int, row);
                assert(sha_rows(self.shas@.update(at as int, row)) =~= put(
                    sha_rows(self.shas@),
                    entry,
                ));
            }
            self.shas[at].sha = sha;
            assert(self.shas@ =~= old(self).shas@.update(
                at as int,
                ShaRow { sha, ..old(self).shas@[at as int] },
            ));
        } else {
            let row = ShaRow { experiment: experiment.clone(), repo: repo.clone(), sha };
            proof {
                lemma_table_push(self.shas@, sha_key(), sha_value(), row);
                assert(sha_rows(self.shas@.push(row)) =~= put(sha_rows(self.shas@), entry));
            }
            self.shas.push(row);
        }
    }

    /// Stores what an agent reported for an experiment. A result whose log is
    /// not valid base64 ends the work with an error: the results before it
    /// are stored, the rest and the commits are not.
    pub fn store(&mut self, ex: &Experiment, data: &ProgressData) -> (done: Result<(), StoreError>)
        ensures
            final(self)@ == stored(old(self)@, ex.name@, *data),
            final(self).results@.len() == final(self)@.result_rows.len(),
            final(self).shas@.len() == final(self)@.sha_rows.len(),
            done is Ok <==> first_match(data.results@, undecodable()) == data.results@.len(),
    {
        let ghost entry = result_entry(ex.name@);
        let mut i: usize = 0;
        while i < data.results.len()
            invariant
                i <= data.results.len(),
                entry == result_entry(ex.name@),
                self.shas == old(self).shas,
                self@.results == insert_all(
                    old(self)@.results,
                    data.results@.take(i as int).map_values(entry),
                ),
                self@.result_rows == put_all(
                    old(self)@.result_rows,
                    data.results@.take(i as int).map_values(entry),
                ),
                forall|j: int| 0 <= j < i ==> !undecodable()(#[trigger] data.results@[j]),
            decreases data.results.len() - i,
        {
            let result = &data.results[i];
            match decode(result.log.as_str()) {
                None => {
                    proof {
                        lemma_first_match_is(data.results@, undecodable(), i as int);
                    }
                    return Err(StoreError::InvalidLog);
                },
                Some(log) => {
                    proof {
                        let before = data.results@.take(i as int).map_values(entry);
                        lemma_insert_all_push(old(self)@.results, before, entry(*result));
                        lemma_put_all_push(old(self)@.result_rows, before, entry(*result));
                        assert(data.results@.take(i + 1).map_values(entry) =~= before.push(
                            entry(*result),
                        ));
                    }
                    self.store_result(&ex.name, &result.krate, &result.toolchain, result.result, log);
                },
            }
            i += 1;
        }
        proof {
            lemma_first_match_is(data.results@, undecodable(), i as int);
            assert(data.results@.take(i as int) =~= data.results@);
        }
        let ghost sha = sha_entry(ex.name@);
        let mut k: usize = 0;
        while k < data.shas.len()
            invariant
                k <= data.shas.len(),
                sha == sha_entry(ex.name@),
                self@.results == insert_all(
                    old(self)@.results,
                    data.results@.map_values(result_entry(ex.name@)),
                ),
                self@.result_rows == put_all(
                    old(self)@.result_rows,
                    data.results@.map_values(result_entry(ex.name@)),
                ),
                self@.shas == insert_all(
                    old(self)@.shas,
                    data.shas@.take(k as int).map_values(sha),
                ),
                self@.sha_rows == put_all(
                    old(self)@.sha_rows,
                    data.shas@.take(k as int).map_values(sha),
                ),
            decreases data.shas.len() - k,
        {
            let pair = &data.shas[k];
            proof {
                let before = data.shas@.take(k as int).map_values(sha);
                lemma_insert_all_push(old(self)@.shas, before, sha(*pair));
                lemma_put_all_push(old(self)@.sha_rows, before, sha(*pair));
                assert(data.shas@.take(k + 1).map_values(sha) =~= before.push(sha(*pair)));
            }
            self.store_sha(&ex.name, &pair.0, pair.1.as_str());
            k += 1;
        }
        proof {
            assert(data.shas@.take(k as int) =~= data.shas@);
        }
        Ok(())
    }

    /// The result stored for a crate and a toolchain of the experiment named
    /// `experiment`.
    pub fn result_for(&self, experiment: &String, toolchain: &Toolchain, krate: &Crate) -> (found:
        Option<TestResult>)
        ensures
            found == match self.result_at(
                ResultKey { experiment: experiment@, krate: krate@, toolchain: toolchain@ },
            ) {
                Some(stored) => Some(stored.result),
                None => None,
            },
    {
        let at = self.find_result(experiment, toolchain, krate);
        if at < self.results.len() {
            Some(self.results[at].result)
        } else {
            None
        }
    }

    /// The log stored for a crate and a toolchain of the experiment named
    /// `experiment`.
    pub fn log_for(&self, experiment: &String, toolchain: &Toolchain, krate: &Crate) -> (found:
        Option<Vec<u8>>)
        ensures
            match self.result_at(
                ResultKey { experiment: experiment@, krate: krate@, toolchain: toolchain@ },
            ) {
                Some(stored) => found is Some && found->0@ == stored.log,
                None => found is None,
            },
    {
        let at = self.find_result(experiment, toolchain, krate);
        if at < self.results.len() {
            Some(self.results[at].log.clone())
        } else {
            None
        }
    }

    /// Removes from the table of results the rows of the experiment named
    /// `experiment`: all of them, or the one of a toolchain and a crate.
    fn drop_results(&mut self, experiment: &String, only: Option<(&Toolchain, &Crate)>)
        ensures
            final(self).shas == old(self).shas,
            final(self).results@ == old(self).results@.filter(
                key_in(
                    result_key(),
                    match only {
                        Some((toolchain, krate)) => other_result(
                            ResultKey {
                                experiment: experiment@,
                                krate: krate@,
                                toolchain: toolchain@,
                            },
                        ),
                        None => other_experiment(experiment@),
                    },
                ),
            ),
            final(self)@.results == old(self)@.results.restrict(
                Set::new(
                    match only {
                        Some((toolchain, krate)) => other_result(
                            ResultKey {
                                experiment: experiment@,
                                krate: krate@,
                                toolchain: toolchain@,
                            },
                        ),
                        None => other_experiment(experiment@),
                    },
                ),
            ),
    {
        let ghost keep_key = match only {
            Some((toolchain, krate)) => other_result(
                ResultKey { experiment: experiment@, krate: krate@, toolchain: toolchain@ },
            ),
            None => other_experiment(experiment@),
        };
        let ghost keep = key_in(result_key(), keep_key);
        let ghost rows = self.results@;
        let ghost mut seen: int = 0;
        let mut at: usize = 0;
        while at < self.results.len()
            invariant
                0 <= seen <= rows.len(),
                at == rows.take(seen).filter(keep).len(),
                self.results@ == rows.take(seen).filter(keep) + rows.skip(seen),
                self.shas == old(self).shas,
                keep == key_in(result_key(), keep_key),
                keep_key == match only {
                    Some((toolchain, krate)) => other_result(
                        ResultKey { experiment: experiment@, krate: krate@, toolchain: toolchain@ },
                    ),
                    None => other_experiment(experiment@),
                },
            decreases self.results.len() - at,
        {
            let row = &self.results[at];
            assert(*row == rows[seen]);
            let drop = row.experiment == *experiment && match only {
                Some((toolchain, krate)) => row.toolchain == *toolchain && row.krate == *krate,
                None => true,
            };
            assert(drop == !keep(rows[seen]));
            proof {
                reveal(Seq::filter);
                assert(rows.take(seen + 1).drop_last() =~= rows.take(seen));
            }
            if drop {
                self.results.remove(at);
                assert(self.results@ =~= rows.take(seen + 1).filter(keep) + rows.skip(seen + 1));
            } else {
                assert(self.results@ =~= rows.take(seen + 1).filter(keep) + rows.skip(seen + 1));
                at += 1;
            }
            proof {
                seen = seen + 1;
            }
        }
        proof {
            assert(rows.take(seen) =~= rows);
            assert(self.results@ =~= rows.filter(keep));
            lemma_table_filter(rows, result_key(), result_value(), keep_key);
        }
    }

    /// Removes all that is stored for the experiment named `experiment`: its
    /// results and its pinned commits.
    pub fn delete_experiment(&mut self, experiment: &String)
        ensures
            final(self).results@ == old(self).results@.filter(
                key_in(result_key(), other_experiment(experiment@)),
            ),
            final(self).shas@ == old(self).shas@.filter(
                key_in(sha_key(), other_experiment_sha(experiment@)),
            ),
            final(self)@.results == old(self)@.results.restrict(
                Set::new(other_experiment(experiment@)),
            ),
            final(self)@.shas == old(self)@.shas.restrict(
                Set::new(other_experiment_sha(experiment@)),
            ),
    {
        self.drop_results(experiment, None);
        let ghost keep = key_in(sha_key(), other_experiment_sha(experiment@));
        let ghost rows = self.shas@;
        let ghost mut seen: int = 0;
        let mut at: usize = 0;
        while at < self.shas.len()
            invariant
                0 <= seen <= rows.len(),
                at == rows.take(seen).filter(keep).len(),
                self.shas@ == rows.take(seen).filter(keep) + rows.skip(seen),
                rows == old(self).shas@,
                self.results@ == old(self).results@.filter(
                    key_in(result_key(), other_experiment(experiment@)),
                ),
                self@.results == old(self)@.results.restrict(
                    Set::new(other_experiment(experiment@)),
                ),
                keep == key_in(sha_key(), other_experiment_sha(experiment@)),
            decreases self.shas.len() - at,
        {
            let row = &self.shas[at];
            assert(*row == rows[seen]);
            let drop = row.experiment == *experiment;
            assert(drop == !keep(rows[seen]));
            proof {
                reveal(Seq::filter);
                assert(rows.take(seen + 1).drop_last() =~= rows.take(seen));
            }
            if drop {
                self.shas.remove(at);
                assert(self.shas@ =~= rows.take(seen + 1).filter(keep) + rows.skip(seen + 1));
            } else {
                assert(self.shas@ =~= rows.take(seen + 1).filter(keep) + rows.skip(seen + 1));
                at += 1;
            }
            proof {
                seen = seen + 1;
            }
        }
        proof {
            assert(rows.take(seen) =~= rows);
            assert(self.shas@ =~= rows.filter(keep));
            lemma_table_filter(rows, sha_key(), sha_value(), other_experiment_sha(experiment@));
        }
    }

    /// Number of results stored for the experiment named `experiment`.
    pub fn count_results(&self, experiment: &String) -> (n: usize)
        ensures
            n == count_where(self.results@, result_of(experiment@)),
    {
        let mut n: usize = 0;
        let mut i: usize = 0;
        while i < self.results.len()
            invariant
                i <= self.results.len(),
                n == count_where(self.results@.take(i as int), result_of(experiment@)),
                n <= i,
            decreases self.results.len() - i,
        {
            proof {
                lemma_count_where_step(self.results@, result_of(experiment@), i as int);
            }
            if self.results[i].experiment == *experiment {
                n += 1;
            }
            i += 1;
        }
        assert(self.results@.take(i as int) =~= self.results@);
        n
    }

    /// Number of results stored for a crate of the experiment named
    /// `experiment`.
    pub fn count_results_of_crate(&self, experiment: &String, krate: &Crate) -> (n: usize)
        ensures
            n == count_where(self.results@, result_of_crate(experiment@, krate@)),
    {
        let mut n: usize = 0;
        let mut i: usize = 0;
        while i < self.results.len()
            invariant
                i <= self.results.len(),
                n == count_where(
                    self.results@.take(i as int),
                    result_of_crate(experiment@, krate@),
                ),
                n <= i,
            decreases self.results.len() - i,
        {
            proof {
                lemma_count_where_step(
                    self.results@,
                    result_of_crate(experiment@, krate@),
                    i as int,
                );
            }
            if self.results[i].experiment == *experiment && self.results[i].krate == *krate {
                n += 1;
            }
            i += 1;
        }
        assert(self.results@.take(i as int) =~= self.results@);
        n
    }

    /// The commits pinned for the experiment named `experiment`, in the order
    /// of the table.
    pub fn shas_for(&self, experiment: &String) -> (shas: Vec<(GitHubRepo, String)>)
        ensures
            shas.deep_view() == self.shas@.filter(sha_of(experiment@)).map_values(sha_pair()),
    {
        let mut shas: Vec<(GitHubRepo, String)> = Vec::new();
        let mut i: usize = 0;
        while i < self.shas.len()
            invariant
                i <= self.shas.len(),
                shas.deep_view() == self.shas@.take(i as int).filter(
                    sha_of(experiment@),
                ).map_values(sha_pair()),
            decreases self.shas.len() - i,
        {
            let row = &self.shas[i];
            proof {
                reveal(Seq::filter);
                assert(self.shas@.take(i + 1).drop_last() =~= self.shas@.take(i as int));
            }
            let ghost before = shas.deep_view();
            if row.experiment == *experiment {
                shas.push((row.repo.clone(), row.sha.clone()));
                assert(shas.deep_view() =~= before.push(sha_pair()(*row)));
                assert(shas.deep_view() =~= self.shas@.take(i + 1).filter(
                    sha_of(experiment@),
                ).map_values(sha_pair()));
            }
            i += 1;
        }
        assert(self.shas@.take(i as int) =~= self.shas@);
        shas
    }

    /// The commit stored for a key, if any.
    pub open spec fn sha_at(&self, key: ShaKey) -> Option<Seq<char>> {
        if self@.shas.dom().contains(key) {
            Some(self@.shas[key])
        } else {
            None
        }
    }

    /// The commit at which a repository was pinned for the experiment named
    /// `experiment`.
    pub fn sha_for(&self, experiment: &String, repo: &GitHubRepo) -> (found: Option<String>)
        ensures
            match self.sha_at(ShaKey { experiment: experiment@, repo: repo@ }) {
                Some(sha) => found is Some && found->0@ == sha,
                None => found is None,
            },
    {
        let at = self.find_sha(experiment, repo);
        if at < self.shas.len() {
            Some(self.shas[at].sha.clone())
        } else {
            None
        }
    }

    /// The commits pinned for an experiment, in the order of the table.
    pub fn load_all_shas(&self, ex: &Experiment) -> (shas: Vec<(GitHubRepo, String)>)
        ensures
            shas.deep_view() == self.shas@.filter(sha_of(ex.name@)).map_values(sha_pair()),
    {
        self.shas_for(&ex.name)
    }

    /// The log stored for a crate and a toolchain of an experiment.
    pub fn load_log(&self, ex: &Experiment, toolchain: &Toolchain, krate: &Crate) -> (found:
        Option<Vec<u8>>)
        ensures
            match self.result_at(
                ResultKey { experiment: ex.name@, krate: krate@, toolchain: toolchain@ },
            ) {
                Some(stored) => found is Some && found->0@ == stored.log,
                None => found is None,
            },
    {
        self.log_for(&ex.name, toolchain, krate)
    }

    /// The result stored for a crate and a toolchain of an experiment.
    pub fn load_test_result(&self, ex: &Experiment, toolchain: &Toolchain, krate: &Crate) -> (found:
        Option<TestResult>)
        ensures
            found == match self.result_at(
                ResultKey { experiment: ex.name@, krate: krate@, toolchain: toolchain@ },
            ) {
                Some(stored) => Some(stored.result),
                None => None,
            },
    {
        self.result_for(&ex.name, toolchain, krate)
    }

    /// The result stored for a crate and a toolchain of an experiment.
    pub fn get_result(&self, ex: &Experiment, toolchain: &Toolchain, krate: &Crate) -> (found:
        Option<TestResult>)
        ensures
            found == match self.result_at(
                ResultKey { experiment: ex.name@, krate: krate@, toolchain: toolchain@ },
            ) {
                Some(stored) => Some(stored.result),
                None => None,
            },
    {
        self.result_for(&ex.name, toolchain, krate)
    }

    /// Records the commit at which a repository was pinned for an
    /// experiment, in place of the one recorded before, if any.
    pub fn record_sha(&mut self, ex: &Experiment, repo: &GitHubRepo, sha: &str)
        ensures
            final(self)@.shas == old(self)@.shas.insert(
                ShaKey { experiment: ex.name@, repo: repo@ },
                sha@,
            ),
            final(self)@.sha_rows == put(
                old(self)@.sha_rows,
                (ShaKey { experiment: ex.name@, repo: repo@ }, sha@),
            ),
            final(self).shas@.len() == final(self)@.sha_rows.len(),
            final(self).results == old(self).results,
    {
        self.store_sha(&ex.name, repo, sha);
    }

    /// Stores the result of a crate with a toolchain for an experiment, with
    /// the log of the run, and hands the result back.
    pub fn record_result(
        &mut self,
        ex: &Experiment,
        toolchain: &Toolchain,
        krate: &Crate,
        result: TestResult,
        log: Vec<u8>,
    ) -> (recorded: TestResult)
        ensures
            recorded == result,
            final(self)@.results == old(self)@.results.insert(
                ResultKey { experiment: ex.name@, krate: krate@, toolchain: toolchain@ },
                StoredResult { result, log: log@ },
            ),
            final(self)@.result_rows == put(
                old(self)@.result_rows,
                (
                    ResultKey { experiment: ex.name@, krate: krate@, toolchain: toolchain@ },
                    StoredResult { result, log: log@ },
                ),
            ),
            final(self).results@.len() == final(self)@.result_rows.len(),
            final(self).shas == old(self).shas,
    {
        self.store_result(&ex.name, krate, toolchain, result, log);
        result
    }

    /// Removes every result of an experiment.
    pub fn delete_all_results(&mut self, ex: &Experiment)
        ensures
            final(self)@.results == old(self)@.results.restrict(
                Set::new(other_experiment(ex.name@)),
            ),
            final(self).results@ == old(self).results@.filter(
                key_in(result_key(), other_experiment(ex.name@)),
            ),
            final(self).shas == old(self).shas,
    {
        self.drop_results(&ex.name, None);
    }

    /// Removes the result of a crate with a toolchain for an experiment.
    pub fn delete_result(&mut self, ex: &Experiment, toolchain: &Toolchain, krate: &Crate)
        ensures
            final(self)@.results == old(self)@.results.remove(
                ResultKey { experiment: ex.name@, krate: krate@, toolchain: toolchain@ },
            ),
            final(self).results@ == old(self).results@.filter(
                key_in(
                    result_key(),
                    other_result(
                        ResultKey { experiment: ex.name@, krate: krate@, toolchain: toolchain@ },
                    ),
                ),
            ),
            final(self).shas == old(self).shas,
    {
        let ghost key = ResultKey { experiment: ex.name@, krate: krate@, toolchain: toolchain@ };
        self.drop_results(&ex.name, Some((toolchain, krate)));
        assert(old(self)@.results.restrict(Set::new(other_result(key))) =~= old(
            self,
        )@.results.remove(key));
    }

    /// The commits pinned for the parent of a chunk.
    pub fn load_all_shas_chunk(&self, ex: &ExperimentChunk) -> (shas: Vec<(GitHubRepo, String)>)
        ensures
            shas.deep_view() == self.shas@.filter(sha_of(ex.parent_name@)).map_values(sha_pair()),
    {
        self.shas_for(&ex.parent_name)
    }

    /// The log stored for a crate and a toolchain of the parent of a chunk.
    pub fn load_log_chunk(&self, ex: &ExperimentChunk, toolchain: &Toolchain, krate: &Crate) -> (found:
        Option<Vec<u8>>)
        ensures
            match self.result_at(
                ResultKey { experiment: ex.parent_name@, krate: krate@, toolchain: toolchain@ },
            ) {
                Some(stored) => found is Some && found->0@ == stored.log,
                None => found is None,
            },
    {
        self.log_for(&ex.parent_name, toolchain, krate)
    }

    /// The result stored for a crate and a toolchain of the parent of a
    /// chunk.
    pub fn load_test_result_chunk(
        &self,
        ex: &ExperimentChunk,
        toolchain: &Toolchain,
        krate: &Crate,
    ) -> (found: Option<TestResult>)
        ensures
            found == match self.result_at(
                ResultKey { experiment: ex.parent_name@, krate: krate@, toolchain: toolchain@ },
            ) {
                Some(stored) => Some(stored.result),
                None => None,
            },
    {
        self.result_for(&ex.parent_name, toolchain, krate)
    }

    /// The result stored for a crate and a toolchain of the parent of a
    /// chunk.
    pub fn get_result_chunk(&self, ex: &ExperimentChunk, toolchain: &Toolchain, krate: &Crate) -> (found:
        Option<TestResult>)
        ensures
            found == match self.result_at(
                ResultKey { experiment: ex.parent_name@, krate: krate@, toolchain: toolchain@ },
            ) {
                Some(stored) => Some(stored.result),
                None => None,
            },
    {
        self.result_for(&ex.parent_name, toolchain, krate)
    }

    /// Records the commit at which a repository was pinned for the parent of
    /// a chunk.
    pub fn record_sha_chunk(&mut self, ex: &ExperimentChunk, repo: &GitHubRepo, sha: &str)
        ensures
            final(self)@.shas == old(self)@.shas.insert(
                ShaKey { experiment: ex.parent_name@, repo: repo@ },
                sha@,
            ),
            final(self)@.sha_rows == put(
                old(self)@.sha_rows,
                (ShaKey { experiment: ex.parent_name@, repo: repo@ }, sha@),
            ),
            final(self).shas@.len() == final(self)@.sha_rows.len(),
            final(self).results == old(self).results,
    {
        self.store_sha(&ex.parent_name, repo, sha);
    }

    /// Stores the result of a crate with a toolchain for the parent of a
    /// chunk, with the log of the run, and hands the result back.
    pub fn record_result_chunk(
        &mut self,
        ex: &ExperimentChunk,
        toolchain: &Toolchain,
        krate: &Crate,
        result: TestResult,
        log: Vec<u8>,
    ) -> (recorded: TestResult)
        ensures
            recorded == result,
            final(self)@.results == old(self)@.results.insert(
                ResultKey { experiment: ex.parent_name@, krate: krate@, toolchain: toolchain@ },
                StoredResult { result, log: log@ },
            ),
            final(self)@.result_rows == put(
                old(self)@.result_rows,
                (
                    ResultKey { experiment: ex.parent_name@, krate: krate@, toolchain: toolchain@ },
                    StoredResult { result, log: log@ },
                ),
            ),
            final(self).results@.len() == final(self)@.result_rows.len(),
            final(self).shas == old(self).shas,
    {
        self.store_result(&ex.parent_name, krate, toolchain, result, log);
        result
    }

    /// Removes every result of the parent of a chunk.
    pub fn delete_all_results_chunk(&mut self, ex: &ExperimentChunk)
        ensures
            final(self)@.results == old(self)@.results.restrict(
                Set::new(other_experiment(ex.parent_name@)),
            ),
            final(self).results@ == old(self).results@.filter(
                key_in(result_key(), other_experiment(ex.parent_name@)),
            ),
            final(self).shas == old(self).shas,
    {
        self.drop_results(&ex.parent_name, None);
    }

    /// Removes the result of a crate with a toolchain for the parent of a
    /// chunk.
    pub fn delete_result_chunk(&mut self, ex: &ExperimentChunk, toolchain: &Toolchain, krate: &Crate)
        ensures
            final(self)@.results == old(self)@.results.remove(
                ResultKey { experiment: ex.parent_name@, krate: krate@, toolchain: toolchain@ },
            ),
            final(self).results@ == old(self).results@.filter(
                key_in(
                    result_key(),
                    other_result(
                        ResultKey { experiment: ex.parent_name@, krate: krate@, toolchain: toolchain@ },
                    ),
                ),
            ),
            final(self).shas == old(self).shas,
    {
        let ghost key = ResultKey {
            experiment: ex.parent_name@,
            krate: krate@,
            toolchain: toolchain@,
        };
        self.drop_results(&ex.parent_name, Some((toolchain, krate)));
        assert(old(self)@.results.restrict(Set::new(other_result(key))) =~= old(
            self,
        )@.results.remove(key));
    }

    /// What is loaded for the first `n` crates of an experiment with its
    /// toolchain number `tc`, which is 0 or 1: the result of each crate that
    /// has one with a log that is text.
    pub open spec fn loaded(&self, ex: Experiment, tc: int, n: int) -> Seq<LoadedResult>
        decreases n,
    {
        if n <= 0 {
            Seq::empty()
        } else {
            let before = self.loaded(ex, tc, n - 1);
            let krate = ex.crates@[n - 1].krate@;
            let toolchain = ex.toolchains[tc]@;
            match self.result_at(ResultKey { experiment: ex.name@, krate, toolchain }) {
                Some(stored) => if vstd::utf8::valid_utf8(stored.log) {
                    before.push(
                        LoadedResult { krate, toolchain, result: stored.result, log: stored.log },
                    )
                } else {
                    before
                },
                None => before,
            }
        }
    }

    fn load_results_with(&self, ex: &Experiment, tc: usize, results: &mut Vec<TaskResult>)
        requires
            tc < 2,
        ensures
            final(results)@.map_values(as_loaded()) == old(results)@.map_values(as_loaded())
                + self.loaded(*ex, tc as int, ex.crates@.len() as int),
    {
        let ghost before = results@.map_values(as_loaded());
        let toolchain = &ex.toolchains[tc];
        let mut i: usize = 0;
        while i < ex.crates.len()
            invariant
                i <= ex.crates.len(),
                tc < 2,
                toolchain@ == ex.toolchains[tc as int]@,
                results@.map_values(as_loaded()) == before + self.loaded(*ex, tc as int, i as int),
            decreases ex.crates.len() - i,
        {
            let krate = &ex.crates[i].krate;
            let ghost so_far = results@.map_values(as_loaded());
            match self.load_test_result(ex, toolchain, krate) {
                None => {},
                Some(result) => {
                    match self.load_log(ex, toolchain, krate) {
                        None => {},
                        Some(bytes) => {
                            match string_from_utf8(bytes) {
                                None => {},
                                Some(log) => {
                                    let loaded = TaskResult {
                                        krate: krate.clone(),
                                        toolchain: toolchain.clone(),
                                        result,
                                        log,
                                    };
                                    let ghost view = as_loaded()(loaded);
                                    results.push(loaded);
                                    assert(results@.map_values(as_loaded()) =~= so_far.push(view));
                                },
                            }
                        },
                    }
                },
            }
            assert(results@.map_values(as_loaded()) =~= before + self.loaded(
                *ex,
                tc as int,
                i + 1,
            ));
            i += 1;
        }
    }

    /// All that is stored for an experiment, as an agent would report it,
    /// but with the logs as text: the results with the first toolchain, for
    /// each crate that has one, then those with the second toolchain, and
    /// the pinned commits. A result whose log is not text is left out.
    pub fn load_all_results(&self, ex: &Experiment) -> (data: ProgressData)
        ensures
            data.results@.map_values(as_loaded()) == self.loaded(
                *ex,
                0,
                ex.crates@.len() as int,
            ) + self.loaded(*ex, 1, ex.crates@.len() as int),
            data.shas.deep_view() == self.shas@.filter(sha_of(ex.name@)).map_values(sha_pair()),
    {
        let shas = self.load_all_shas(ex);
        let mut results: Vec<TaskResult> = Vec::new();
        assert(results@.map_values(as_loaded()) =~= Seq::empty());
        self.load_results_with(ex, 0, &mut results);
        self.load_results_with(ex, 1, &mut results);
        assert(results@.map_values(as_loaded()) =~= self.loaded(*ex, 0, ex.crates@.len() as int)
            + self.loaded(*ex, 1, ex.crates@.len() as int));
        ProgressData { results, shas }
    }
}

/// No element of an empty sequence matches.
proof fn lemma_first_match_bounds_empty<T>(s: Seq<T>)
    requires
        s.len() == 0,
    ensures
        forall|p: spec_fn(T) -> bool| #[trigger] first_match(s, p) == 0,
{
}

} // verus!
