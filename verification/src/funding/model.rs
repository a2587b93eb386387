//! Project funding as a state machine over mathematical values.

use crate::funding::types::{
    Error, FundingView, MilestoneView, ProjectStatus, ProjectView, StageStatus,
};
use vstd::prelude::*;

verus! {

/// The key of the token in which every project is funded.
pub open spec fn native_token() -> Seq<char> {
    "CB2BI5XCTQC2Y7V63JZO2FAC7S5IX5QL2EHCHF44UDG5E3VNUHVTGOVV"@
}

/// What a new project asks for one of its milestones, as mathematics: a
/// title, a description, an amount and the number of votes that decide it.
pub struct StageSpecView {
    pub title: Seq<char>,
    pub desc: Seq<char>,
    pub amt: int,
    pub req_votes: nat,
}

/// The requests that a list of title, description, amount and required
/// votes stands for.
pub open spec fn stage_requests(configs: Seq<(String, String, i128, u32)>) -> Seq<StageSpecView> {
    Seq::new(
        configs.len(),
        |i: int|
            StageSpecView {
                title: configs[i].0@,
                desc: configs[i].1@,
                amt: configs[i].2 as int,
                req_votes: configs[i].3 as nat,
            },
    )
}

/// The sum of the amounts of the first `n` requests of `specs`.
pub open spec fn sum_stages(specs: Seq<StageSpecView>, n: int) -> int
    decreases n,
{
    if n <= 0 {
        0
    } else {
        sum_stages(specs, n - 1) + specs[n - 1].amt
    }
}

/// Every sum of the first requests of `specs` fits 128 bits.
pub open spec fn sums_fit(specs: Seq<StageSpecView>) -> bool {
    forall|n: int| 0 <= n <= specs.len() ==> i128::MIN <= #[trigger] sum_stages(specs, n) <= i128::MAX
}

/// The milestone that a new project makes of a request.
pub open spec fn new_stage(spec: StageSpecView) -> MilestoneView {
    MilestoneView {
        title: spec.title,
        desc: spec.desc,
        amt: spec.amt,
        votes: Map::empty(),
        voters: Seq::empty(),
        req_votes: spec.req_votes,
        status: StageStatus::Pending,
    }
}

/// The project that is created under `id`.
pub open spec fn new_project(
    id: nat,
    owner: Seq<char>,
    title: Seq<char>,
    desc: Seq<char>,
    target: int,
    specs: Seq<StageSpecView>,
) -> ProjectView {
    ProjectView {
        id,
        owner,
        title,
        desc,
        target,
        current: 0,
        balance: 0,
        token: native_token(),
        status: ProjectStatus::Active,
        backers: Map::empty(),
        mstones: Seq::new(specs.len(), |i: int| new_stage(specs[i])),
    }
}

/// The number of votes in favour among those of the first `n` of `voters`.
pub open spec fn count_for(votes: Map<Seq<char>, bool>, voters: Seq<Seq<char>>, n: int) -> nat
    decreases n,
{
    if n <= 0 {
        0
    } else {
        count_for(votes, voters, n - 1) + (if votes[voters[n - 1]] {
            1nat
        } else {
            0nat
        })
    }
}

impl ProjectView {
    /// What holds of every project: it has milestones, nothing above its
    /// target was given, and no backer gave more than all gave.
    pub open spec fn wf(self) -> bool {
        &&& self.mstones.len() >= 1
        &&& 0 <= self.current <= self.target
        &&& forall|k: Seq<char>| #[trigger]
            self.backers.contains_key(k) ==> 0 < self.backers[k] <= self.current
    }

    /// The position of the first pending milestone is `i`.
    pub open spec fn first_pending_is(self, i: int) -> bool {
        &&& 0 <= i < self.mstones.len()
        &&& self.mstones[i].status == StageStatus::Pending
        &&& forall|j: int| 0 <= j < i ==> (#[trigger] self.mstones[j]).status != StageStatus::Pending
    }

    /// No milestone is pending.
    pub open spec fn none_pending(self) -> bool {
        forall|j: int|
            0 <= j < self.mstones.len() ==> (#[trigger] self.mstones[j]).status
                != StageStatus::Pending
    }

    /// What `who` gave so far.
    pub open spec fn contribution(self, who: Seq<char>) -> int {
        if self.backers.contains_key(who) {
            self.backers[who]
        } else {
            0
        }
    }

    /// The project once `backer` gave `amount`, at the ledger sequence
    /// `sequence`: the balance is the sequence and the amount.
    pub open spec fn after_fund(self, backer: Seq<char>, amount: int, sequence: nat) -> ProjectView {
        ProjectView {
            balance: sequence + amount,
            backers: self.backers.insert(backer, self.contribution(backer) + amount),
            current: self.current + amount,
            ..self
        }
    }

    /// The project once `backer` voted on its milestone `i`, with
    /// `threshold` votes in favour deciding it: the vote is recorded, and the
    /// project is done if the milestone is the last one and has the votes.
    pub open spec fn after_vote(self, i: int, backer: Seq<char>, vote: bool, threshold: nat) -> ProjectView {
        let m = self.mstones[i];
        let voted = MilestoneView {
            votes: m.votes.insert(backer, vote),
            voters: m.voters.push(backer),
            ..m
        };
        ProjectView {
            mstones: self.mstones.update(i, voted),
            status: if voted.passes(threshold) && i == self.mstones.len() - 1 {
                ProjectStatus::Done
            } else {
                self.status
            },
            ..self
        }
    }
}

impl MilestoneView {
    /// The votes are as many as required, and those in favour reach
    /// `threshold`.
    pub open spec fn passes(self, threshold: nat) -> bool {
        self.voters.len() >= self.req_votes && count_for(
            self.votes,
            self.voters,
            self.voters.len() as int,
        ) >= threshold
    }
}

impl FundingView {
    /// What holds of project funding at all times: every project is well
    /// formed and stored under its own id, which is below the next one.
    pub open spec fn wf(self) -> bool {
        &&& self.next_id >= 1
        &&& forall|id: u32| #[trigger]
            self.projects.contains_key(id) ==> {
                &&& self.projects[id].wf()
                &&& self.projects[id].id == id
                &&& id < self.next_id
            }
    }

    /// The answer to the creation of a project: its id, or why there is
    /// none.
    pub open spec fn create_project_result(self, target: int, specs: Seq<StageSpecView>) -> Result<
        u32,
        Error,
    > {
        if target <= 0 {
            Err(Error::Invalid)
        } else if specs.len() == 0 {
            Err(Error::NoMStone)
        } else if sum_stages(specs, specs.len() as int) != target {
            Err(Error::Invalid)
        } else {
            Ok(self.next_id as u32)
        }
    }

    /// Project funding once the project was created.
    pub open spec fn after_create_project(
        self,
        owner: Seq<char>,
        title: Seq<char>,
        desc: Seq<char>,
        target: int,
        specs: Seq<StageSpecView>,
    ) -> FundingView {
        FundingView {
            next_id: self.next_id + 1,
            projects: self.projects.insert(
                self.next_id as u32,
                new_project(self.next_id, owner, title, desc, target, specs),
            ),
        }
    }

    /// The answer to `amount` offered to the project `id`.
    pub open spec fn fund_project_result(self, id: u32, amount: int) -> Result<(), Error> {
        if !self.projects.contains_key(id) {
            Err(Error::NotFound)
        } else if self.projects[id].status != ProjectStatus::Active {
            Err(Error::Inactive)
        } else if amount <= 0 || self.projects[id].current + amount > self.projects[id].target {
            Err(Error::Invalid)
        } else {
            Ok(())
        }
    }

    /// The answer to a vote of `backer` on the first pending milestone of
    /// the project `id`.
    pub open spec fn vote_result(self, id: u32, backer: Seq<char>) -> Result<(), Error> {
        if !self.projects.contains_key(id) {
            Err(Error::NotFound)
        } else if self.projects[id].none_pending() {
            Err(Error::NoMStone)
        } else if exists|i: int|
            self.projects[id].first_pending_is(i) && self.projects[id].mstones[i].votes.contains_key(
                backer,
            ) {
            Err(Error::Voted)
        } else {
            Ok(())
        }
    }
}

} // verus!
