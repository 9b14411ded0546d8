//! The per-job side of the parallel retrieval run: what each job must do,
//! computed here; and the run's verdict over the jobs' outcomes. The jobs
//! are independent, their order is irrelevant to correctness, and the first
//! observed failure is what the caller sees.
//!
//! The caller executes each plan in three strict steps: create the parent
//! directory recursively (a no-op where it exists), create the destination
//! file, stream the body of a GET to the encoded URL into it.

use vstd::prelude::*;
use crate::planner::DownloadJob;
use crate::text::{find_last, find_last_spec, push_char};

verus! {

/// `s` with each space replaced by `%20`, as the transfer layer needs the
/// URL.
pub open spec fn percent_encode_view(s: Seq<char>) -> Seq<char>
    decreases s.len(),
{
    if s.len() == 0 {
        Seq::empty()
    } else {
        percent_encode_view(s.drop_last()) + (if s.last() == ' ' {
            seq!['%', '2', '0']
        } else {
            seq![s.last()]
        })
    }
}

/// Everything before the last `/` of `p`; empty where `p` holds none.
pub open spec fn parent_dir_view(p: Seq<char>) -> Seq<char> {
    match find_last_spec(p, '/') {
        Some(i) => p.subrange(0, i),
        None => Seq::empty(),
    }
}

/// What one download job comes to on the wire and on disk: the URL with
/// spaces percent-encoded, the directory that must exist before the write,
/// and the file the body lands in.
pub struct FetchPlan {
    pub encoded_url: String,
    pub parent_dir: String,
    pub destination_path: String,
}

/// Replaces each space of `url` by `%20`.
pub fn percent_encode_spaces(url: &str) -> (r: String)
    ensures
        r@ == percent_encode_view(url@),
{
    let mut out = String::new();
    let len: usize = url.unicode_len();
    let mut i: usize = 0;
    proof {
        assert(url@.take(0) =~= Seq::<char>::empty());
    }
    while i < len
        invariant
            0 <= i <= len,
            len == url@.len(),
            out@ == percent_encode_view(url@.take(i as int)),
        decreases len - i,
    {
        let c = url.get_char(i);
        proof {
            assert(url@.take(i + 1).drop_last() =~= url@.take(i as int));
            assert(url@.take(i + 1).last() == url@[i as int]);
        }
        if c == ' ' {
            out.append("%20");
            proof {
                reveal_strlit("%20");
                assert("%20"@ =~= seq!['%', '2', '0']);
            }
        } else {
            push_char(&mut out, c);
        }
        proof {
            assert(out@ =~= percent_encode_view(url@.take(i + 1)));
        }
        i = i + 1;
    }
    proof {
        assert(url@.take(len as int) =~= url@);
    }
    out
}

/// The directory part of `path`: everything before its last `/`, or empty
/// where it holds none.
pub fn parent_dir(path: &str) -> (r: String)
    ensures
        r@ == parent_dir_view(path@),
{
    match find_last(path, '/') {
        Some(i) => {
            proof {
                crate::text::lemma_find_last_spec(path@, '/');
            }
            path.substring_char(0, i).to_owned()
        },
        None => String::new(),
    }
}

/// Computes what executing `job` takes: within a single job, creating
/// `parent_dir` strictly precedes creating the file at `destination_path`,
/// which strictly precedes the streamed write from `encoded_url`.
pub fn fetch_plan(job: &DownloadJob) -> (p: FetchPlan)
    ensures
        p.encoded_url@ == percent_encode_view(job.source_url@),
        p.parent_dir@ == parent_dir_view(job.destination_path@),
        p.destination_path@ == job.destination_path@,
{
    FetchPlan {
        encoded_url: percent_encode_spaces(job.source_url.as_str()),
        parent_dir: parent_dir(job.destination_path.as_str()),
        destination_path: job.destination_path.clone(),
    }
}

/// Index of the first failed outcome (`Some` message), or `None` where
/// every job succeeded.
pub open spec fn first_failure_spec(outcomes: Seq<Option<Seq<char>>>) -> Option<int>
    decreases outcomes.len(),
{
    if outcomes.len() == 0 {
        None
    } else if outcomes.first() is Some {
        Some(0)
    } else {
        match first_failure_spec(outcomes.drop_first()) {
            Some(i) => Some(i + 1),
            None => None,
        }
    }
}

pub proof fn lemma_first_failure_spec(outcomes: Seq<Option<Seq<char>>>)
    ensures
        match first_failure_spec(outcomes) {
            Some(i) => 0 <= i < outcomes.len() && outcomes[i] is Some && (forall|k: int|
                0 <= k < i ==> outcomes[k] is None),
            None => forall|k: int| 0 <= k < outcomes.len() ==> outcomes[k] is None,
        },
    decreases outcomes.len(),
{
    if outcomes.len() > 0 && outcomes.first() is None {
        lemma_first_failure_spec(outcomes.drop_first());
        let rest = outcomes.drop_first();
        match first_failure_spec(rest) {
            Some(i) => {
                assert(rest[i] == outcomes[i + 1]);
                assert forall|k: int| 0 <= k < i + 1 implies outcomes[k] is None by {
                    if k > 0 {
                        assert(rest[k - 1] == outcomes[k]);
                    }
                }
            },
            None => {
                assert forall|k: int| 0 <= k < outcomes.len() implies outcomes[k] is None by {
                    if k > 0 {
                        assert(rest[k - 1] == outcomes[k]);
                    }
                }
            },
        }
    }
}

/// The run reports a failure exactly where some job failed: any job's
/// failure is surfaced as the run's terminal error, and a run with no
/// failed job reports none.
pub proof fn lemma_failure_reported_iff_any_failed(outcomes: Seq<Option<Seq<char>>>)
    ensures
        first_failure_spec(outcomes) is Some <==> exists|k: int|
            0 <= k < outcomes.len() && outcomes[k] is Some,
{
    lemma_first_failure_spec(outcomes);
    if first_failure_spec(outcomes) is Some {
        let i = first_failure_spec(outcomes)->Some_0;
        assert(0 <= i < outcomes.len() && outcomes[i] is Some);
    }
}

/// The run's verdict over the outcomes the caller collected, one per job in
/// the order it launched them: the position of the first observed failure,
/// or `None` where every job succeeded.
pub fn first_failure(outcomes: &Vec<Option<String>>) -> (r: Option<usize>)
    ensures
        match r {
            Some(i) => first_failure_spec(outcomes.deep_view()) == Some(i as int),
            None => first_failure_spec(outcomes.deep_view()) is None,
        },
{
    let ghost dv = outcomes.deep_view();
    let mut j: usize = 0;
    proof {
        assert(dv.skip(0) =~= dv);
    }
    while j < outcomes.len()
        invariant
            0 <= j <= outcomes@.len(),
            dv == outcomes.deep_view(),
            dv.len() == outcomes@.len(),
            match first_failure_spec(dv.skip(j as int)) {
                Some(i) => first_failure_spec(dv) == Some(i + j),
                None => first_failure_spec(dv) is None,
            },
            forall|k: int| 0 <= k < j ==> dv[k] is None,
        decreases outcomes@.len() - j,
    {
        proof {
            assert(dv.skip(j as int).drop_first() =~= dv.skip(j + 1));
            assert(dv.skip(j as int).first() == dv[j as int]);
        }
        if outcomes[j].is_some() {
            proof {
                assert(dv[j as int] is Some);
                assert(first_failure_spec(dv.skip(j as int)) == Some(0int));
            }
            return Some(j);
        }
        j = j + 1;
    }
    proof {
        assert(dv.skip(dv.len() as int) =~= Seq::<Option<Seq<char>>>::empty());
    }
    None
}

} // verus!
