use vstd::prelude::*;

use crate::text::{decimal_chars, decimal_string};
use crate::lexical::{lemma_seq_lt_irreflexive, lemma_seq_lt_total, lemma_seq_lt_transitive, seq_lt, str_lt};

verus! {

/// Outcome of one test case in a JUnit report.
#[derive(Clone, Copy, Debug, PartialEq, Eq, Structural)]
pub enum TestStatus {
    Failed,
    Retried,
    Passed,
}

/// The status of a test case: failed if it has a failure, retried if it
/// failed before passing on a rerun, passed otherwise.
pub open spec fn status_of(has_failure: bool, rerun_failures: nat) -> TestStatus {
    if has_failure {
        TestStatus::Failed
    } else if rerun_failures > 0 {
        TestStatus::Retried
    } else {
        TestStatus::Passed
    }
}

/// The icon printed for a status.
pub open spec fn status_icon_spec(s: TestStatus) -> Seq<char> {
    match s {
        TestStatus::Passed => "✅"@,
        TestStatus::Failed => "❌"@,
        TestStatus::Retried => "🔁"@,
    }
}

/// The position of a status in the printed table: failures first, then
/// retried tests, then passed ones.
pub open spec fn status_rank_spec(s: TestStatus) -> u8 {
    match s {
        TestStatus::Failed => 0,
        TestStatus::Retried => 1,
        TestStatus::Passed => 2,
    }
}

/// Classifies a test case from its failure and rerun-failure records.
pub fn classify_test(has_failure: bool, rerun_failures: usize) -> (s: TestStatus)
    ensures
        s == status_of(has_failure, rerun_failures as nat),
        has_failure ==> s == TestStatus::Failed,
        !has_failure && rerun_failures > 0 ==> s == TestStatus::Retried,
        !has_failure && rerun_failures == 0 ==> s == TestStatus::Passed,
{
    if has_failure {
        TestStatus::Failed
    } else if rerun_failures > 0 {
        TestStatus::Retried
    } else {
        TestStatus::Passed
    }
}

/// A test case with a failure record is failed whatever its reruns; one
/// without a failure but with failed reruns is retried; any other passed.
pub proof fn law_status_cases(has_failure: bool, rerun_failures: nat)
    ensures
        has_failure ==> status_of(has_failure, rerun_failures) == TestStatus::Failed,
        !has_failure && rerun_failures > 0 ==> status_of(has_failure, rerun_failures)
            == TestStatus::Retried,
        !has_failure && rerun_failures == 0 ==> status_of(has_failure, rerun_failures)
            == TestStatus::Passed,
{
}

/// The icon printed for a status.
pub fn status_icon(s: TestStatus) -> (r: &'static str)
    ensures
        r@ == status_icon_spec(s),
        s == TestStatus::Passed ==> r@ == "✅"@,
        s == TestStatus::Failed ==> r@ == "❌"@,
        s == TestStatus::Retried ==> r@ == "🔁"@,
{
    match s {
        TestStatus::Passed => "✅",
        TestStatus::Failed => "❌",
        TestStatus::Retried => "🔁",
    }
}

/// The sort key of a status.
pub fn status_rank(s: TestStatus) -> (r: u8)
    ensures
        r == status_rank_spec(s),
{
    match s {
        TestStatus::Failed => 0,
        TestStatus::Retried => 1,
        TestStatus::Passed => 2,
    }
}

/// Failed tests are listed before retried ones, and retried ones before
/// passed ones.
pub proof fn law_failures_listed_first()
    ensures
        status_rank_spec(TestStatus::Failed) < status_rank_spec(TestStatus::Retried),
        status_rank_spec(TestStatus::Retried) < status_rank_spec(TestStatus::Passed),
{
}

/// The name under which a test case is listed: `suite::case`.
pub open spec fn qualified_name(suite: Seq<char>, case: Seq<char>) -> Seq<char> {
    suite + "::"@ + case
}

/// The name under which a test case is listed: `suite::case`.
pub fn qualified_test_name(suite: &str, case: &str) -> (r: String)
    ensures
        r@ == qualified_name(suite@, case@),
{
    let mut r = String::from_str(suite);
    r.append("::");
    r.append(case);
    r
}

/// The texts of a vector of strings.
pub open spec fn names_view(v: Seq<String>) -> Seq<Seq<char>> {
    v.map_values(|s: String| s@)
}

/// `x` is the text of some element of `v`.
pub open spec fn has_name(v: Seq<String>, x: Seq<char>) -> bool {
    exists|i: int| 0 <= i < v.len() && #[trigger] v[i]@ == x
}

/// No text occurs twice in `v`: `v` stands for a set of names.
pub open spec fn distinct_names(v: Seq<String>) -> bool {
    forall|i: int, j: int| 0 <= i < j < v.len() ==> v[i]@ != v[j]@
}

/// Texts in strictly increasing order.
pub open spec fn strictly_sorted(v: Seq<String>) -> bool {
    forall|i: int, j: int| 0 <= i < j < v.len() ==> seq_lt(v[i]@, v[j]@)
}

/// Whether some element of `v` has the text of `x`.
pub fn contains_name(v: &Vec<String>, x: &str) -> (r: bool)
    ensures
        r == has_name(v@, x@),
{
    let target = String::from_str(x);
    let mut i: usize = 0;
    while i < v.len()
        invariant
            i <= v@.len(),
            target@ == x@,
            forall|j: int| 0 <= j < i ==> v@[j]@ != x@,
        decreases v@.len() - i,
    {
        if v[i] == target {
            return true;
        }
        i = i + 1;
    }
    false
}

/// Adds a name to a set of names, as `HashSet::insert` does.
pub fn insert_name(set: &mut Vec<String>, x: String)
    ensures
        distinct_names(old(set)@) ==> distinct_names(final(set)@),
        has_name(old(set)@, x@) ==> final(set)@ == old(set)@,
        !has_name(old(set)@, x@) ==> final(set)@ == old(set)@.push(x),
{
    if !contains_name(set, x.as_str()) {
        set.push(x);
    }
}

/// One suite of a test listing and the test cases it expects to run.
pub struct SuiteListing {
    pub suite: String,
    pub testcases: Vec<String>,
}

/// `x` is `suite::case` for one of the first `count` cases of `entry`.
pub open spec fn listed_in(entry: SuiteListing, count: int, x: Seq<char>) -> bool {
    exists|b: int|
        0 <= b < count && b < entry.testcases@.len() && x == qualified_name(
            entry.suite@,
            #[trigger] entry.testcases@[b]@,
        )
}

/// `x` is `suite::case` for a case of one of the first `count` suites.
pub open spec fn listed_among(listing: Seq<SuiteListing>, count: int, x: Seq<char>) -> bool {
    exists|a: int| 0 <= a < count && a < listing.len() && #[trigger] listed_in(listing[a], listing[a].testcases@.len() as int, x)
}

/// `x` is `suite::case` for a case that the listing names.
pub open spec fn listed(listing: Seq<SuiteListing>, x: Seq<char>) -> bool {
    listed_among(listing, listing.len() as int, x)
}

/// The set of test names, `suite::case`, that a listing expects to run.
pub fn listed_test_names(listing: &Vec<SuiteListing>) -> (r: Vec<String>)
    ensures
        distinct_names(r@),
        forall|x: Seq<char>| has_name(r@, x) <==> listed(listing@, x),
{
    let mut r: Vec<String> = Vec::new();
    let mut i: usize = 0;
    while i < listing.len()
        invariant
            i <= listing@.len(),
            distinct_names(r@),
            forall|x: Seq<char>| has_name(r@, x) <==> listed_among(listing@, i as int, x),
        decreases listing@.len() - i,
    {
        let entry = &listing[i];
        let mut j: usize = 0;
        while j < entry.testcases.len()
            invariant
                i < listing@.len(),
                *entry == listing@[i as int],
                j <= entry.testcases@.len(),
                distinct_names(r@),
                forall|x: Seq<char>|
                    has_name(r@, x) <==> (listed_among(listing@, i as int, x) || listed_in(
                        *entry,
                        j as int,
                        x,
                    )),
            decreases entry.testcases@.len() - j,
        {
            let name = qualified_test_name(entry.suite.as_str(), entry.testcases[j].as_str());
            let ghost old_r = r@;
            assert(forall|x: Seq<char>|
                has_name(old_r, x) <==> (listed_among(listing@, i as int, x) || listed_in(
                    *entry,
                    j as int,
                    x,
                )));
            insert_name(&mut r, name);
            proof {
                assert forall|x: Seq<char>| has_name(r@, x) <==> (has_name(old_r, x) || x
                    == name@) by {
                    if has_name(r@, x) && !has_name(old_r, x) {
                        let k = choose|k: int| 0 <= k < r@.len() && #[trigger] r@[k]@ == x;
                        if k < old_r.len() {
                            assert(old_r[k]@ == x);
                        }
                    }
                    if has_name(old_r, x) {
                        let k = choose|k: int| 0 <= k < old_r.len() && #[trigger] old_r[k]@ == x;
                        assert(r@[k]@ == x);
                    }
                    if x == name@ && !has_name(old_r, x) {
                        assert(r@[old_r.len() as int]@ == x);
                    }
                }
                assert forall|x: Seq<char>|
                    #[trigger] listed_in(*entry, j + 1, x) <==> (listed_in(*entry, j as int, x)
                        || x == name@) by {
                    if x == name@ {
                        assert(x == qualified_name(entry.suite@, entry.testcases@[j as int]@));
                    }
                    if listed_in(*entry, j + 1, x) && !listed_in(*entry, j as int, x) {
                        let b = choose|b: int|
                            0 <= b < j + 1 && b < entry.testcases@.len() && x == qualified_name(
                                entry.suite@,
                                #[trigger] entry.testcases@[b]@,
                            );
                        assert(b == j);
                    }
                }
                assert forall|x: Seq<char>|
                    has_name(r@, x) <==> (listed_among(listing@, i as int, x) || listed_in(
                        *entry,
                        j + 1,
                        x,
                    )) by {
                    assert(has_name(r@, x) <==> (has_name(old_r, x) || x == name@));
                    assert(has_name(old_r, x) <==> (listed_among(listing@, i as int, x) || listed_in(
                        *entry,
                        j as int,
                        x,
                    )));
                    assert(listed_in(*entry, j + 1, x) <==> (listed_in(*entry, j as int, x)
                        || x == name@));
                }
            }
            j = j + 1;
        }
        proof {
            assert forall|x: Seq<char>|
                #[trigger] listed_among(listing@, i + 1, x) <==> (listed_among(
                    listing@,
                    i as int,
                    x,
                ) || listed_in(*entry, entry.testcases@.len() as int, x)) by {
                if listed_in(*entry, entry.testcases@.len() as int, x) {
                    assert(listed_in(listing@[i as int], listing@[i as int].testcases@.len() as int, x));
                }
                if listed_among(listing@, i + 1, x) && !listed_among(listing@, i as int, x) {
                    let a = choose|a: int|
                        0 <= a < i + 1 && a < listing@.len() && #[trigger] listed_in(
                            listing@[a],
                            listing@[a].testcases@.len() as int,
                            x,
                        );
                    assert(a == i);
                }
            }
        }
        i = i + 1;
    }
    r
}

/// A strictly sorted vector holds no text twice.
proof fn lemma_sorted_distinct(v: Seq<String>)
    requires
        strictly_sorted(v),
    ensures
        distinct_names(v),
{
    assert forall|i: int, j: int| 0 <= i < j < v.len() implies v[i]@ != v[j]@ by {
        lemma_seq_lt_irreflexive(v[i]@);
    }
}

/// Adds a name to a strictly sorted set of names, keeping it sorted.
fn insert_sorted(v: &mut Vec<String>, x: String)
    requires
        strictly_sorted(old(v)@),
    ensures
        strictly_sorted(final(v)@),
        forall|y: Seq<char>| has_name(final(v)@, y) <==> (has_name(old(v)@, y) || y == x@),
{
    let mut p: usize = 0;
    while p < v.len() && str_lt(v[p].as_str(), x.as_str())
        invariant
            p <= v@.len(),
            v@ == old(v)@,
            forall|i: int| 0 <= i < p ==> seq_lt(#[trigger] v@[i]@, x@),
        decreases v@.len() - p,
    {
        p = p + 1;
    }
    if p < v.len() && v[p] == x {
        assert(v@[p as int]@ == x@);
        assert(has_name(v@, x@));
        return;
    }
    let ghost before = v@;
    assert(before == old(v)@);
    proof {
        if p < before.len() {
            lemma_seq_lt_total(before[p as int]@, x@);
            assert(seq_lt(x@, before[p as int]@));
            assert forall|j: int| p <= j < before.len() implies seq_lt(x@, #[trigger] before[j]@) by {
                if j > p {
                    lemma_seq_lt_transitive(x@, before[p as int]@, before[j]@);
                }
            }
        }
    }
    let ghost xv = x;
    v.insert(p, x);
    proof {
        assert forall|i: int, j: int| 0 <= i < j < v@.len() implies seq_lt(v@[i]@, v@[j]@) by {
            if j < p {
                assert(v@[i] == before[i] && v@[j] == before[j]);
            } else if j == p {
                assert(v@[i] == before[i]);
            } else if i == p {
                assert(v@[j] == before[j - 1]);
            } else if i < p {
                assert(v@[i] == before[i] && v@[j] == before[j - 1]);
                lemma_seq_lt_transitive(before[i]@, x@, before[j - 1]@);
            } else {
                assert(v@[i] == before[i - 1] && v@[j] == before[j - 1]);
            }
        }
        lemma_insert_names(before, p as int, xv);
    }
}

proof fn lemma_insert_names(before: Seq<String>, p: int, x: String)
    requires
        0 <= p <= before.len(),
    ensures
        forall|y: Seq<char>| has_name(before.insert(p, x), y) <==> (has_name(before, y) || y == x@),
{
    let v = before.insert(p, x);
    assert forall|y: Seq<char>| has_name(v, y) <==> (has_name(before, y) || y == x@) by {
        if has_name(v, y) {
            let k = choose|k: int| 0 <= k < v.len() && #[trigger] v[k]@ == y;
            if k < p {
                assert(before[k]@ == y);
            } else if k > p {
                assert(before[k - 1]@ == y);
            }
        }
        if has_name(before, y) {
            let k = choose|k: int| 0 <= k < before.len() && #[trigger] before[k]@ == y;
            if k < p {
                assert(v[k]@ == y);
            } else {
                assert(v[k + 1]@ == y);
            }
        }
        if y == x@ {
            assert(v[p]@ == y);
        }
    }
}

/// The listed tests that did not run: the names in `list` that are not in
/// `run`, each once, in increasing order.
pub fn tests_not_executed(list: &Vec<String>, run: &Vec<String>) -> (r: Vec<String>)
    ensures
        strictly_sorted(r@),
        distinct_names(r@),
        forall|x: Seq<char>| has_name(r@, x) <==> (has_name(list@, x) && !has_name(run@, x)),
{
    let mut r: Vec<String> = Vec::new();
    let mut i: usize = 0;
    while i < list.len()
        invariant
            i <= list@.len(),
            strictly_sorted(r@),
            forall|x: Seq<char>|
                has_name(r@, x) <==> ((exists|k: int| 0 <= k < i && #[trigger] list@[k]@ == x)
                    && !has_name(run@, x)),
        decreases list@.len() - i,
    {
        if !contains_name(run, list[i].as_str()) {
            let ghost before = r@;
            insert_sorted(&mut r, list[i].clone());
            assert forall|x: Seq<char>|
                has_name(r@, x) <==> ((exists|k: int| 0 <= k < i + 1 && #[trigger] list@[k]@ == x)
                    && !has_name(run@, x)) by {
                if x == list@[i as int]@ {
                    assert(has_name(r@, x));
                }
            }
        } else {
            assert forall|x: Seq<char>|
                has_name(r@, x) <==> ((exists|k: int| 0 <= k < i + 1 && #[trigger] list@[k]@ == x)
                    && !has_name(run@, x)) by {
                if (exists|k: int| 0 <= k < i + 1 && #[trigger] list@[k]@ == x) && !has_name(run@, x) {
                    let k = choose|k: int| 0 <= k < i + 1 && #[trigger] list@[k]@ == x;
                    if k == i {
                        assert(has_name(run@, list@[i as int]@));
                    }
                }
            }
        }
        i = i + 1;
    }
    proof {
        lemma_sorted_distinct(r@);
        assert forall|x: Seq<char>| has_name(list@, x) <==> (exists|k: int|
            0 <= k < list@.len() && #[trigger] list@[k]@ == x) by {}
    }
    r
}

/// The listed names that no test run carries.
pub open spec fn missing_names(list: Seq<String>, run: Seq<String>) -> Set<Seq<char>> {
    Set::new(|x: Seq<char>| has_name(list, x) && !has_name(run, x))
}

/// The error reported when listed tests did not run.
pub open spec fn not_executed_message(count: nat) -> Seq<char> {
    "tests not executed = "@ + decimal_chars(count)
}

/// The texts of a vector of distinct names, as a set, have as many elements
/// as the vector.
proof fn lemma_distinct_names_count(v: Seq<String>)
    requires
        distinct_names(v),
    ensures
        names_view(v).to_set().finite(),
        names_view(v).to_set().len() == v.len(),
        forall|x: Seq<char>| names_view(v).to_set().contains(x) <==> has_name(v, x),
{
    let w = names_view(v);
    assert(w.no_duplicates());
    w.unique_seq_to_set();
    assert forall|x: Seq<char>| w.to_set().contains(x) <==> has_name(v, x) by {
        if has_name(v, x) {
            let k = choose|k: int| 0 <= k < v.len() && #[trigger] v[k]@ == x;
            assert(w[k] == x);
        }
        if w.contains(x) {
            let k = choose|k: int| 0 <= k < w.len() && w[k] == x;
            assert(v[k]@ == x);
        }
    }
}

/// Checks that every listed test ran; otherwise reports how many did not.
pub fn validate_result_list(list: &Vec<String>, run: &Vec<String>) -> (res: Result<(), String>)
    ensures
        missing_names(list@, run@).finite(),
        (missing_names(list@, run@).len() == 0) == (res is Ok),
        res matches Err(m) ==> m@ == not_executed_message(missing_names(list@, run@).len()),
{
    let missing = tests_not_executed(list, run);
    proof {
        lemma_distinct_names_count(missing@);
        assert(names_view(missing@).to_set() =~= missing_names(list@, run@));
    }
    if missing.len() > 0 {
        let mut m = String::from_str("tests not executed = ");
        let count = decimal_string(missing.len());
        m.append(count.as_str());
        Err(m)
    } else {
        Ok(())
    }
}

/// Validation passes exactly when every listed test ran.
pub proof fn law_validation_passes_iff_all_listed_ran(list: Seq<String>, run: Seq<String>)
    ensures
        missing_names(list, run).finite(),
        (missing_names(list, run).len() == 0) <==> (forall|x: Seq<char>|
            has_name(list, x) ==> has_name(run, x)),
{
    let m = missing_names(list, run);
    let w = names_view(list);
    assert(m.subset_of(w.to_set())) by {
        assert forall|x: Seq<char>| m.contains(x) implies w.to_set().contains(x) by {
            let k = choose|k: int| 0 <= k < list.len() && #[trigger] list[k]@ == x;
            assert(w[k] == x);
        }
    }
    vstd::seq_lib::seq_to_set_is_finite(w);
    vstd::set_lib::lemma_len_subset(m, w.to_set());
    if m.len() == 0 {
        assert forall|x: Seq<char>| has_name(list, x) implies has_name(run, x) by {
            if !has_name(run, x) {
                assert(m.contains(x));
                m.lemma_len0_is_empty();
            }
        }
    } else {
        let x = m.choose();
        assert(m.contains(x));
    }
}

/// A suite listing as plain text: each suite's name and its test cases.
pub open spec fn listing_view(v: Seq<SuiteListing>) -> Seq<(Seq<char>, Seq<Seq<char>>)> {
    v.map_values(|s: SuiteListing| (s.suite@, names_view(s.testcases@)))
}

/// `x` is `suite::case` for a suite and one of its cases in the listing.
pub open spec fn json_listed(listing: Seq<(Seq<char>, Seq<Seq<char>>)>, x: Seq<char>) -> bool {
    exists|i: int, j: int|
        0 <= i < listing.len() && 0 <= j < listing[i].1.len() && x == qualified_name(
            listing[i].0,
            #[trigger] listing[i].1[j],
        )
}

/// What serde_json finds in a text along a path of object keys: `None`
/// when the text is not JSON; otherwise the keys of the object reached by
/// looking up each key of `path` in turn from the document's root, or
/// `Some(None)` when the value reached is not an object (`Index` yields
/// `Null` for a missing key or a non-object).
pub uninterp spec fn json_object_keys_at(text: Seq<char>, path: Seq<Seq<char>>) -> Option<Option<Seq<Seq<char>>>>;

/// Key of the object of suites in a list.json file.
pub const SUITES_KEY: &'static str = "rust-suites";

/// Key of the object of test cases in each suite of a list.json file.
pub const CASES_KEY: &'static str = "testcases";

/// The texts of an optional vector of strings.
pub open spec fn opt_names_view(o: Option<Vec<String>>) -> Option<Seq<Seq<char>>> {
    match o {
        Some(v) => Some(names_view(v@)),
        None => None,
    }
}

/// The test cases that a list.json text lists for a suite: the keys of the
/// suite's `testcases` object, none when that is not an object.
pub open spec fn list_json_cases(text: Seq<char>, suite: Seq<char>) -> Seq<Seq<char>> {
    match json_object_keys_at(text, seq![SUITES_KEY@, suite, CASES_KEY@]) {
        Some(Some(cases)) => cases,
        _ => Seq::empty(),
    }
}

/// Suites of a list.json text and the test cases each lists: the keys of
/// the `rust-suites` object, none when that is not an object; `None` when
/// the text is not JSON.
pub open spec fn list_json_listing(text: Seq<char>) -> Option<Seq<(Seq<char>, Seq<Seq<char>>)>> {
    match json_object_keys_at(text, seq![SUITES_KEY@]) {
        None => None,
        Some(None) => Some(Seq::empty()),
        Some(Some(suites)) => Some(
            suites.map_values(|suite: Seq<char>| (suite, list_json_cases(text, suite))),
        ),
    }
}

/// Parses a text once with `serde_json::from_str` into a
/// `serde_json::Value`, then for each path looks its keys up in turn with
/// `Index` and reads the keys of the value reached with
/// `Value::as_object` and `Map::keys`. Trusted: each answer is the one
/// named by `json_object_keys_at` for the text and that path; nothing is
/// claimed about JSON syntax.
#[verifier::external_body]
fn json_object_keys(text: &str, paths: &Vec<Vec<String>>) -> (r: Option<Vec<Option<Vec<String>>>>)
    ensures
        r is None ==> forall|i: int|
            0 <= i < paths@.len() ==> json_object_keys_at(text@, #[trigger] names_view(paths@[i]@))
                is None,
        r matches Some(v) ==> v@.len() == paths@.len() && forall|i: int|
            0 <= i < paths@.len() ==> json_object_keys_at(text@, #[trigger] names_view(paths@[i]@))
                == Some(opt_names_view(v@[i])),
{
    let root: serde_json::Value = serde_json::from_str(text).ok()?;
    Some(paths.iter().map(|path| {
        let node = path.iter().fold(&root, |node, key| &node[key.as_str()]);
        node.as_object().map(|m| m.keys().cloned().collect())
    }).collect())
}

/// A copy of a vector of strings.
fn copy_names(v: &Vec<String>) -> (r: Vec<String>)
    ensures
        names_view(r@) == names_view(v@),
{
    let mut r: Vec<String> = Vec::new();
    let mut i: usize = 0;
    while i < v.len()
        invariant
            i <= v@.len(),
            r@.len() == i,
            forall|j: int| 0 <= j < i ==> (#[trigger] r@[j])@ == v@[j]@,
        decreases v@.len() - i,
    {
        r.push(v[i].clone());
        i = i + 1;
    }
    assert(names_view(r@) =~= names_view(v@));
    r
}

/// The suites and test cases a list.json text lists; `None` when the text
/// is not JSON.
pub fn parse_list_json(text: &str) -> (r: Option<Vec<SuiteListing>>)
    ensures
        r is None <==> list_json_listing(text@) is None,
        r matches Some(v) ==> list_json_listing(text@) == Some(listing_view(v@)),
{
    let mut root_path: Vec<String> = Vec::new();
    root_path.push(String::from_str(SUITES_KEY));
    let mut root_paths: Vec<Vec<String>> = Vec::new();
    root_paths.push(root_path);
    assert(names_view(root_paths@[0]@) =~= seq![SUITES_KEY@]);
    let top = match json_object_keys(text, &root_paths) {
        None => {
            return None;
        },
        Some(top) => top,
    };
    let suites = match &top[0] {
        None => {
            assert(listing_view(Seq::<SuiteListing>::empty()) =~= Seq::empty());
            return Some(Vec::new());
        },
        Some(suites) => suites,
    };
    let ghost suite_names = names_view(suites@);
    // one path per suite: rust-suites / <suite> / testcases
    let mut paths: Vec<Vec<String>> = Vec::new();
    let mut k: usize = 0;
    while k < suites.len()
        invariant
            k <= suites@.len(),
            paths@.len() == k,
            forall|t: int|
                0 <= t < k ==> names_view(#[trigger] paths@[t]@) == seq![
                    SUITES_KEY@,
                    suites@[t]@,
                    CASES_KEY@,
                ],
        decreases suites@.len() - k,
    {
        let mut path: Vec<String> = Vec::new();
        path.push(String::from_str(SUITES_KEY));
        path.push(suites[k].clone());
        path.push(String::from_str(CASES_KEY));
        assert(names_view(path@) =~= seq![SUITES_KEY@, suites@[k as int]@, CASES_KEY@]);
        paths.push(path);
        k = k + 1;
    }
    let cases = json_object_keys(text, &paths);
    let mut listing: Vec<SuiteListing> = Vec::new();
    let mut t: usize = 0;
    while t < suites.len()
        invariant
            t <= suites@.len(),
            paths@.len() == suites@.len(),
            listing@.len() == t,
            cases matches Some(c) ==> c@.len() == paths@.len(),
            forall|u: int|
                0 <= u < suites@.len() ==> names_view(#[trigger] paths@[u]@) == seq![
                    SUITES_KEY@,
                    suites@[u]@,
                    CASES_KEY@,
                ],
            cases is None ==> forall|u: int|
                0 <= u < paths@.len() ==> json_object_keys_at(text@, #[trigger] names_view(paths@[u]@))
                    is None,
            cases matches Some(c) ==> forall|u: int|
                0 <= u < paths@.len() ==> json_object_keys_at(text@, #[trigger] names_view(paths@[u]@))
                    == Some(opt_names_view(c@[u])),
            forall|u: int|
                0 <= u < t ==> (#[trigger] listing@[u]).suite@ == suites@[u]@ && names_view(
                    listing@[u].testcases@,
                ) == list_json_cases(text@, suites@[u]@),
        decreases suites@.len() - t,
    {
        let ghost p = names_view(paths@[t as int]@);
        let testcases = match &cases {
            Some(c) => match &c[t] {
                Some(keys) => copy_names(keys),
                None => Vec::new(),
            },
            None => Vec::new(),
        };
        assert(names_view(testcases@) == list_json_cases(text@, suites@[t as int]@)) by {
            assert(p == seq![SUITES_KEY@, suites@[t as int]@, CASES_KEY@]);
            if testcases@.len() == 0 {
                assert(names_view(testcases@) =~= Seq::<Seq<char>>::empty());
            }
        }
        listing.push(SuiteListing { suite: suites[t].clone(), testcases });
        t = t + 1;
    }
    proof {
        let expected = suite_names.map_values(
            |suite: Seq<char>| (suite, list_json_cases(text@, suite)),
        );
        assert(listing_view(listing@) =~= expected);
    }
    Some(listing)
}

proof fn lemma_listed_json_listed(listing: Seq<SuiteListing>, x: Seq<char>)
    ensures
        listed(listing, x) <==> json_listed(listing_view(listing), x),
{
    let lv = listing_view(listing);
    if listed(listing, x) {
        let a = choose|a: int|
            0 <= a < listing.len() && a < listing.len() && #[trigger] listed_in(
                listing[a],
                listing[a].testcases@.len() as int,
                x,
            );
        let b = choose|b: int|
            0 <= b < listing[a].testcases@.len() && b < listing[a].testcases@.len() && x
                == qualified_name(listing[a].suite@, #[trigger] listing[a].testcases@[b]@);
        assert(lv[a].1[b] == listing[a].testcases@[b]@);
        assert(x == qualified_name(lv[a].0, lv[a].1[b]));
    }
    if json_listed(lv, x) {
        let (a, b) = choose|a: int, b: int|
            0 <= a < lv.len() && 0 <= b < lv[a].1.len() && x == qualified_name(
                lv[a].0,
                #[trigger] lv[a].1[b],
            );
        assert(lv[a].1[b] == listing[a].testcases@[b]@);
        assert(listed_in(listing[a], listing[a].testcases@.len() as int, x));
    }
}

/// The set of test names, `suite::case`, that a list.json text lists;
/// `None` when the text is not JSON.
pub fn list_json_test_names(text: &str) -> (r: Option<Vec<String>>)
    ensures
        r is None <==> list_json_listing(text@) is None,
        r matches Some(v) ==> distinct_names(v@) && forall|x: Seq<char>|
            has_name(v@, x) <==> json_listed(list_json_listing(text@).unwrap(), x),
{
    match parse_list_json(text) {
        None => None,
        Some(listing) => {
            let names = listed_test_names(&listing);
            proof {
                assert forall|x: Seq<char>|
                    has_name(names@, x) <==> json_listed(list_json_listing(text@).unwrap(), x) by {
                    lemma_listed_json_listed(listing@, x);
                }
            }
            Some(names)
        },
    }
}

} // verus!
