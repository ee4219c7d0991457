//! Which files a new database needs to itself.
use vstd::prelude::*;

use crate::error;
use crate::error::{AppError, ErrorView, Result};
use crate::text;
use crate::text::Text;

verus! {

/// What stands at a path.
#[verifier::ext_equal]
#[derive(Debug)]
pub enum Presence<T = String> {
    Missing,
    Present,
    /// It could not be told; the message says why.
    Unknown { message: T },
}

impl DeepView for Presence {
    type V = Presence<Text>;

    open spec fn deep_view(&self) -> Presence<Text> {
        match self {
            Presence::Missing => Presence::Missing,
            Presence::Present => Presence::Present,
            Presence::Unknown { message } => Presence::Unknown { message: message@ },
        }
    }
}

/// A path that was looked at.
#[verifier::ext_equal]
#[derive(Debug)]
pub struct Probe<T = String> {
    pub path: T,
    pub presence: Presence<T>,
}

impl DeepView for Probe {
    type V = Probe<Text>;

    open spec fn deep_view(&self) -> Probe<Text> {
        Probe { path: self.path@, presence: self.presence.deep_view() }
    }
}

/// The endings of the files that belong to one database: the database itself and its journals.
pub fn database_suffixes() -> (suffixes: Vec<String>)
    ensures
        suffixes.deep_view() == seq![""@, "-wal"@, "-shm"@, "-journal"@],
{
    let mut suffixes: Vec<String> = Vec::new();
    suffixes.push("".to_owned());
    suffixes.push("-wal".to_owned());
    suffixes.push("-shm".to_owned());
    suffixes.push("-journal".to_owned());
    assert(suffixes.deep_view() =~= seq![""@, "-wal"@, "-shm"@, "-journal"@]);
    suffixes
}

/// What looking at one path answers.
pub open spec fn checked_probe(probe: Probe<Text>) -> core::result::Result<(), ErrorView> {
    match probe.presence {
        Presence::Missing => Ok(()),
        Presence::Present => Err(
            ErrorView {
                code: "FILE_EXISTS"@,
                message: "目标或数据库日志已存在，不会覆盖："@ + probe.path,
            },
        ),
        Presence::Unknown { message } => Err(ErrorView { code: "IO_ERROR"@, message }),
    }
}

/// What looking at several paths answers: the first that is not missing decides.
pub open spec fn checked_probes(probes: Seq<Probe<Text>>) -> core::result::Result<(), ErrorView>
    decreases probes.len(),
{
    if probes.len() == 0 {
        Ok(())
    } else {
        match checked_probes(probes.drop_last()) {
            Err(error) => Err(error),
            Ok(_) => checked_probe(probes.last()),
        }
    }
}

proof fn lemma_first_probe_error(probes: Seq<Probe<Text>>, end: int)
    requires
        0 <= end <= probes.len(),
        checked_probes(probes.take(end)) is Err,
    ensures
        checked_probes(probes) == checked_probes(probes.take(end)),
    decreases probes.len() - end,
{
    if end < probes.len() {
        assert(probes.take(end + 1).drop_last() =~= probes.take(end));
        lemma_first_probe_error(probes, end + 1);
    } else {
        assert(probes.take(end) =~= probes);
    }
}

fn check_probe(probe: &Probe) -> (result: Result<()>)
    ensures
        error::outcome(result) == checked_probe(probe.deep_view()),
{
    match &probe.presence {
        Presence::Missing => Ok(()),
        Presence::Present => Err(
            AppError::new(
                "FILE_EXISTS",
                text::joined("目标或数据库日志已存在，不会覆盖：", probe.path.as_str()).as_str(),
            ),
        ),
        Presence::Unknown { message } => Err(AppError::new("IO_ERROR", message.as_str())),
    }
}

/// A new database must not be paired with a leftover SQLite journal.
pub fn ensure_unused_database_path(probes: &Vec<Probe>) -> (result: Result<()>)
    ensures
        error::outcome(result) == checked_probes(probes.deep_view()),
{
    let ghost all = probes.deep_view();
    let mut i: usize = 0;
    assert(all.take(0).len() == 0);
    while i < probes.len()
        invariant
            all == probes.deep_view(),
            i <= probes.len(),
            checked_probes(all.take(i as int)) == Ok::<(), ErrorView>(()),
        decreases probes.len() - i,
    {
        assert(all.take(i + 1).drop_last() =~= all.take(i as int));
        assert(all.take(i + 1).last() == all[i as int]);
        match check_probe(&probes[i]) {
            Err(error) => {
                proof {
                    lemma_first_probe_error(all, i + 1);
                }
                return Err(error);
            },
            Ok(_) => {},
        }
        i += 1;
    }
    assert(all.take(i as int) =~= all);
    Ok(())
}

/// A database path is unused only where nothing stands at any of its files.
pub proof fn law_unused_means_all_missing(probes: Seq<Probe<Text>>)
    ensures
        checked_probes(probes) is Ok <==> forall|i: int|
            0 <= i < probes.len() ==> (#[trigger] probes[i]).presence is Missing,
    decreases probes.len(),
{
    if probes.len() > 0 {
        let front = probes.drop_last();
        law_unused_means_all_missing(front);
        assert forall|i: int| 0 <= i < front.len() implies front[i] == probes[i] by {}
        assert(probes.last() == probes[probes.len() - 1]);
        if checked_probes(probes) is Ok {
            assert forall|i: int| 0 <= i < probes.len() implies (
            #[trigger] probes[i]).presence is Missing by {
                if i < front.len() {
                    assert(front[i].presence is Missing);
                }
            }
        } else if forall|i: int|
            0 <= i < probes.len() ==> (#[trigger] probes[i]).presence is Missing {
            assert forall|i: int| 0 <= i < front.len() implies (
            #[trigger] front[i]).presence is Missing by {
                assert(probes[i].presence is Missing);
            }
        }
    }
}

} // verus!
