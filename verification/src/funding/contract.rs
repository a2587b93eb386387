//! The operations of project funding.
//!
//! Whoever runs them checks the caller's authorization first, hands in the
//! ledger's sequence number, and says how many votes in favour decide a
//! milestone: two thirds of the votes it requires, as the host computes them.

use crate::address::{lemma_map_of_dom, lemma_map_of_value, Address, AddressMap};
use crate::funding::model::{
    count_for, new_project, new_stage, stage_requests, sum_stages, sums_fit,
};
use crate::funding::types::{
    Error, FundingView, Milestone, Project, ProjectFunding, ProjectStatus, ProjectView, StageStatus,
};
use std::collections::HashMap;
use vstd::prelude::*;

verus! {

/// The key of the token in which every project is funded.
pub const NATIVE_TOKEN: &'static str = "CB2BI5XCTQC2Y7V63JZO2FAC7S5IX5QL2EHCHF44UDG5E3VNUHVTGOVV";

impl Project {
    /// The project is well formed as mathematics, and no principal occurs
    /// twice among its backers or among the voters of a milestone.
    pub open spec fn wf(&self) -> bool {
        &&& self@.wf()
        &&& self.backers.wf()
        &&& forall|i: int| 0 <= i < self.mstones@.len() ==> (#[trigger] self.mstones@[i]).votes.wf()
    }

    /// Whether the project is well formed.
    #[verifier::loop_isolation(false)]
    pub fn is_valid(&self) -> (r: bool)
        ensures
            r == self.wf(),
    {
        let n = self.mstones.len();
        if n == 0 {
            return false;
        }
        if self.current < 0 || self.current > self.target {
            return false;
        }
        if !self.backers.is_valid() {
            return false;
        }
        let mut i: usize = 0;
        while i < n
            invariant
                i <= n,
                forall|j: int| 0 <= j < i ==> (#[trigger] self.mstones@[j]).votes.wf(),
            decreases n - i,
        {
            if !self.mstones[i].votes.is_valid() {
                return false;
            }
            i += 1;
        }
        proof {
            lemma_map_of_dom(self.backers.entries@);
        }
        let count = self.backers.entries.len();
        let mut b: usize = 0;
        while b < count
            invariant
                b <= count,
                forall|j: int|
                    0 <= j < b ==> 0 < (#[trigger] self.backers.entries@[j]).value <= self.current,
            decreases count - b,
        {
            let value = self.backers.entries[b].value;
            if value <= 0 || value > self.current {
                proof {
                    lemma_map_of_value(self.backers.entries@, b as int);
                    assert(self@.backers.contains_key(self.backers.entries@[b as int].who@));
                }
                return false;
            }
            b += 1;
        }
        proof {
            assert forall|key: Seq<char>| #[trigger] self@.backers.contains_key(key) implies 0
                < self@.backers[key] <= self@.current by {
                let j = choose|j: int|
                    0 <= j < self.backers.entries@.len() && (#[trigger] self.backers.entries@[j]).who@
                        == key;
                lemma_map_of_value(self.backers.entries@, j);
            }
        }
        true
    }

    /// The position of the first pending milestone, if any is pending.
    pub fn first_pending(&self) -> (r: Option<usize>)
        ensures
            match r {
                Some(i) => self@.first_pending_is(i as int),
                None => self@.none_pending(),
            },
    {
        let n = self.mstones.len();
        let mut i: usize = 0;
        while i < n
            invariant
                i <= n,
                n == self.mstones@.len(),
                forall|j: int|
                    0 <= j < i ==> (#[trigger] self@.mstones[j]).status != StageStatus::Pending,
            decreases n - i,
        {
            assert(self@.mstones[i as int] == self.mstones@[i as int]@);
            if self.mstones[i].status == StageStatus::Pending {
                return Some(i);
            }
            i += 1;
        }
        None
    }
}

impl Milestone {
    /// The number of votes in favour.
    pub fn votes_for(&self) -> (r: usize)
        requires
            self.votes.wf(),
        ensures
            r == count_for(self@.votes, self@.voters, self@.voters.len() as int),
    {
        let n = self.votes.entries.len();
        let mut count: usize = 0;
        let mut i: usize = 0;
        while i < n
            invariant
                i <= n,
                n == self.votes.entries@.len(),
                self.votes.wf(),
                count <= i,
                count == count_for(self@.votes, self@.voters, i as int),
            decreases n - i,
        {
            proof {
                lemma_map_of_value(self.votes.entries@, i as int);
                assert(self@.voters[i as int] == self.votes.entries@[i as int].who@);
            }
            if self.votes.entries[i].value {
                count += 1;
            }
            i += 1;
        }
        assert(self@.voters.len() == n);
        count
    }
}

impl ProjectFunding {
    /// Project funding is well formed as mathematics, and so is each project
    /// as a record.
    pub open spec fn wf(&self) -> bool {
        &&& self@.wf()
        &&& forall|id: u32| #[trigger] self.projects@.contains_key(id) ==> self.projects@[id].wf()
    }

    /// Project funding without a project.
    pub fn new() -> (r: Self)
        ensures
            r.wf(),
            r@.next_id == 1,
            r@.projects == Map::<u32, ProjectView>::empty(),
    {
        let r = ProjectFunding { next_id: 1, projects: HashMap::new() };
        assert(r@.projects =~= Map::empty());
        r
    }

    /// What was kept of project funding can be project funding again: the
    /// projects are well formed, with ids of their own below the next id.
    pub open spec fn restorable(next_id: u32, projects: Seq<Project>) -> bool {
        &&& next_id >= 1
        &&& forall|i: int|
            0 <= i < projects.len() ==> (#[trigger] projects[i]).wf() && projects[i].id < next_id
        &&& forall|i: int, j: int|
            0 <= i < projects.len() && 0 <= j < projects.len() && i != j ==> (
            #[trigger] projects[i]).id != (#[trigger] projects[j]).id
    }

    /// Project funding that was kept as this next id and these projects;
    /// nothing, where they cannot be project funding.
    #[verifier::loop_isolation(false)]
    pub fn restore(next_id: u32, projects: Vec<Project>) -> (r: Option<Self>)
        ensures
            r is Some <==> Self::restorable(next_id, projects@),
            r is Some ==> {
                &&& r->0.wf()
                &&& r->0.next_id == next_id
                &&& forall|i: int|
                    0 <= i < projects@.len() ==> r->0.projects@.contains_key(
                        (#[trigger] projects@[i]).id,
                    ) && r->0.projects@[projects@[i].id] == projects@[i]
                &&& forall|id: u32| #[trigger]
                    r->0.projects@.contains_key(id) ==> exists|i: int|
                        0 <= i < projects@.len() && (#[trigger] projects@[i]).id == id
            },
    {
        let ghost all = projects@;
        if next_id < 1 {
            return None;
        }
        let mut rest = projects;
        let mut kept: HashMap<u32, Project> = HashMap::new();
        while rest.len() > 0
            invariant
                rest@.len() <= all.len(),
                rest@ == all.subrange(0, rest@.len() as int),
                forall|i: int|
                    rest@.len() <= i < all.len() ==> (#[trigger] all[i]).wf() && all[i].id < next_id
                        && kept@.contains_key(all[i].id) && kept@[all[i].id] == all[i],
                forall|i: int, j: int|
                    rest@.len() <= i < all.len() && rest@.len() <= j < all.len() && i != j ==> (
                    #[trigger] all[i]).id != (#[trigger] all[j]).id,
                forall|id: u32| #[trigger]
                    kept@.contains_key(id) ==> exists|i: int|
                        rest@.len() <= i < all.len() && (#[trigger] all[i]).id == id,
            decreases rest@.len(),
        {
            let ghost at = rest@.len() - 1;
            let p = match rest.pop() {
                Some(p) => p,
                None => {
                    return None;
                },
            };
            assert(p == all[at]);
            if !p.is_valid() || p.id >= next_id {
                return None;
            }
            if kept.contains_key(&p.id) {
                proof {
                    let j = choose|j: int| at < j < all.len() && (#[trigger] all[j]).id == p.id;
                    assert(all[at].id == all[j].id);
                }
                return None;
            }
            let ghost before = kept@;
            kept.insert(p.id, p);
            proof {
                assert forall|id: u32| #[trigger] kept@.contains_key(id) implies exists|i: int|
                    rest@.len() <= i < all.len() && (#[trigger] all[i]).id == id by {
                    if id == all[at].id {
                        assert(all[at].id == id);
                    } else {
                        assert(before.contains_key(id));
                        let i = choose|i: int| at < i < all.len() && (#[trigger] all[i]).id == id;
                        assert(all[i].id == id);
                    }
                }
            }
        }
        let r = ProjectFunding { next_id, projects: kept };
        proof {
            assert forall|id: u32| #[trigger] r.projects@.contains_key(id) implies r.projects@[id].wf()
                && r@.projects[id].wf() && r@.projects[id].id == id && id < r@.next_id by {
                let i = choose|i: int| 0 <= i < all.len() && (#[trigger] all[i]).id == id;
                assert(all[i].wf());
            }
        }
        Some(r)
    }

    /// Whether every sum of the first amounts of `mstone_config` fits 128
    /// bits: whether a project can be created from it.
    pub fn amounts_fit(mstone_config: &Vec<(String, String, i128, u32)>) -> (r: bool)
        ensures
            r == sums_fit(stage_requests(mstone_config@)),
    {
        let ghost specs = stage_requests(mstone_config@);
        let n = mstone_config.len();
        let mut total: i128 = 0;
        let mut i: usize = 0;
        while i < n
            invariant
                i <= n,
                n == mstone_config@.len(),
                specs == stage_requests(mstone_config@),
                total == sum_stages(specs, i as int),
                forall|k: int| 0 <= k <= i ==> i128::MIN <= #[trigger] sum_stages(specs, k) <= i128::MAX,
            decreases n - i,
        {
            let amt = mstone_config[i].2;
            assert(specs[i as int].amt == amt);
            match total.checked_add(amt) {
                Some(t) => {
                    total = t;
                },
                None => {
                    assert(sum_stages(specs, i as int + 1) == total + amt);
                    return false;
                },
            }
            i += 1;
        }
        true
    }

    /// The sum of the amounts of `mstone_config`.
    pub fn total_of(mstone_config: &Vec<(String, String, i128, u32)>) -> (r: i128)
        requires
            sums_fit(stage_requests(mstone_config@)),
        ensures
            r == sum_stages(stage_requests(mstone_config@), mstone_config@.len() as int),
    {
        let ghost specs = stage_requests(mstone_config@);
        let n = mstone_config.len();
        let mut total: i128 = 0;
        let mut i: usize = 0;
        while i < n
            invariant
                i <= n,
                n == mstone_config@.len(),
                specs == stage_requests(mstone_config@),
                sums_fit(specs),
                total == sum_stages(specs, i as int),
            decreases n - i,
        {
            assert(specs[i as int].amt == mstone_config@[i as int].2);
            assert(i128::MIN <= sum_stages(specs, i as int + 1) <= i128::MAX);
            total = total + mstone_config[i].2;
            i += 1;
        }
        total
    }

    /// Whether the sums and the ids fit their bits once `create_project` is
    /// called with these arguments: whether it can be called.
    pub fn create_project_fits(&self, target: i128, mstone_config: &Vec<(String, String, i128, u32)>) -> (r:
        bool)
        ensures
            r == ((target > 0 ==> sums_fit(stage_requests(mstone_config@)))
                && (self@.create_project_result(target as int, stage_requests(mstone_config@)) is Ok
                ==> self.next_id < u32::MAX)),
    {
        if target <= 0 {
            return true;
        }
        if !Self::amounts_fit(mstone_config) {
            return false;
        }
        self.next_id < u32::MAX || mstone_config.len() == 0 || Self::total_of(mstone_config)
            != target
    }

    /// Whether the balance fits its 128 bits once `fund_project` is called
    /// with these arguments: whether it can be called.
    pub fn fund_project_fits(&self, project_id: u32, amount: i128, sequence: u32) -> (r: bool)
        requires
            self.wf(),
        ensures
            r == (self@.fund_project_result(project_id, amount as int) is Ok ==> sequence + amount
                <= i128::MAX),
    {
        match self.projects.get(&project_id) {
            None => true,
            Some(p) => p.status != ProjectStatus::Active || amount <= 0 || amount > p.target
                - p.current || amount <= i128::MAX - sequence as i128,
        }
    }

    /// Creates a project of `owner` with the target `target`, in stages
    /// `mstone_config`, each a title, a description, an amount and the number
    /// of votes that decide it. The amounts sum to the target, or no project
    /// is created. Returns the id of the new project.
    #[verifier::loop_isolation(false)]
    pub fn create_project(
        &mut self,
        owner: Address,
        title: String,
        desc: String,
        target: i128,
        mstone_config: Vec<(String, String, i128, u32)>,
    ) -> (r: Result<u32, Error>)
        requires
            old(self).wf(),
            target > 0 ==> sums_fit(stage_requests(mstone_config@)),
            old(self)@.create_project_result(target as int, stage_requests(mstone_config@)) is Ok
                ==> old(self).next_id < u32::MAX,
        ensures
            final(self).wf(),
            r == old(self)@.create_project_result(target as int, stage_requests(mstone_config@)),
            r is Ok ==> final(self)@ == old(self)@.after_create_project(
                owner@,
                title@,
                desc@,
                target as int,
                stage_requests(mstone_config@),
            ),
            r is Err ==> *final(self) == *old(self),
    {
        let ghost specs = stage_requests(mstone_config@);
        if target <= 0 {
            return Err(Error::Invalid);
        }
        let n = mstone_config.len();
        if n == 0 {
            return Err(Error::NoMStone);
        }
        if Self::total_of(&mstone_config) != target {
            return Err(Error::Invalid);
        }
        let id = self.next_id;
        let mut mstones: Vec<Milestone> = Vec::new();
        let mut i: usize = 0;
        while i < n
            invariant
                i <= n,
                mstones@.len() == i,
                forall|j: int| 0 <= j < i ==> (#[trigger] mstones@[j])@ == new_stage(specs[j]),
                forall|j: int| 0 <= j < i ==> (#[trigger] mstones@[j]).votes.wf(),
            decreases n - i,
        {
            let amt = mstone_config[i].2;
            assert(specs[i as int].amt == amt);
            let votes: AddressMap<bool> = AddressMap::new();
            let m = Milestone {
                title: mstone_config[i].0.clone(),
                desc: mstone_config[i].1.clone(),
                amt,
                votes,
                req_votes: mstone_config[i].3,
                status: StageStatus::Pending,
            };
            proof {
                assert(m@.votes =~= Map::empty());
                assert(m@.voters =~= Seq::empty());
                assert(m@ == new_stage(specs[i as int]));
            }
            mstones.push(m);
            i += 1;
        }
        let project = Project {
            id,
            owner,
            title,
            desc,
            target,
            current: 0,
            balance: 0,
            token: Address::new(NATIVE_TOKEN),
            status: ProjectStatus::Active,
            backers: AddressMap::new(),
            mstones,
        };
        let ghost before = self@;
        proof {
            let fresh = new_project(id as nat, owner@, title@, desc@, target as int, specs);
            assert(project@.mstones =~= fresh.mstones);
            assert(project@.backers =~= fresh.backers);
            assert(project@ == fresh);
        }
        self.projects.insert(id, project);
        self.next_id = id + 1;
        proof {
            let after = before.after_create_project(owner@, title@, desc@, target as int, specs);
            assert(self@.projects =~= after.projects);
            assert(self@ == after);
        }
        Ok(id)
    }

    /// Takes `amount` from `backer` for the project `project_id`, at the
    /// ledger sequence `sequence`, unless the project is not active, the
    /// amount is not positive, or it would overshoot the target. The
    /// project's balance becomes the sequence and the amount.
    pub fn fund_project(&mut self, project_id: u32, backer: Address, amount: i128, sequence: u32) -> (r:
        Result<(), Error>)
        requires
            old(self).wf(),
            old(self)@.fund_project_result(project_id, amount as int) is Ok ==> sequence + amount
                <= i128::MAX,
        ensures
            final(self).wf(),
            r == old(self)@.fund_project_result(project_id, amount as int),
            r is Ok ==> final(self)@ == (FundingView {
                projects: old(self)@.projects.insert(
                    project_id,
                    old(self)@.projects[project_id].after_fund(backer@, amount as int, sequence as nat),
                ),
                ..old(self)@
            }),
            r is Err ==> final(self)@ == old(self)@,
    {
        let ghost before = self@;
        match self.projects.get(&project_id) {
            None => {
                return Err(Error::NotFound);
            },
            Some(p) => {
                if p.status != ProjectStatus::Active {
                    return Err(Error::Inactive);
                }
                if amount <= 0 || amount > p.target - p.current {
                    return Err(Error::Invalid);
                }
            },
        }
        let mut project = match self.projects.remove(&project_id) {
            Some(p) => p,
            None => {
                assert(self@.projects =~= before.projects);
                return Err(Error::NotFound);
            },
        };
        let ghost was = project@;
        proof {
            lemma_map_of_dom(project.backers.entries@);
        }
        let given = match project.backers.get(&backer) {
            Some(a) => a,
            None => 0,
        };
        assert(given == was.contribution(backer@));
        project.backers.set(backer, given + amount);
        project.current = project.current + amount;
        project.balance = sequence as i128 + amount;
        proof {
            let now = was.after_fund(backer@, amount as int, sequence as nat);
            assert(project@.backers =~= now.backers);
            assert(project@.mstones =~= now.mstones);
            assert(project@ == now);
            assert forall|k: Seq<char>| #[trigger] now.backers.contains_key(k) implies 0
                < now.backers[k] <= now.current by {
                if k != backer@ {
                    assert(was.backers.contains_key(k));
                }
            }
        }
        self.projects.insert(project_id, project);
        assert(self@.projects =~= before.projects.insert(
            project_id,
            before.projects[project_id].after_fund(backer@, amount as int, sequence as nat),
        ));
        Ok(())
    }

    /// The number of votes that decide the first pending milestone of the
    /// project `project_id`, if there is one.
    pub fn required_votes(&self, project_id: u32) -> (r: Option<u32>)
        ensures
            match r {
                Some(n) => self@.projects.contains_key(project_id) && exists|i: int|
                    self@.projects[project_id].first_pending_is(i)
                        && self@.projects[project_id].mstones[i].req_votes == n,
                None => !self@.projects.contains_key(project_id)
                    || self@.projects[project_id].none_pending(),
            },
    {
        match self.projects.get(&project_id) {
            None => None,
            Some(p) => match p.first_pending() {
                None => None,
                Some(i) => {
                    assert(p@.mstones[i as int] == p.mstones@[i as int]@);
                    assert(self@.projects[project_id].first_pending_is(i as int));
                    Some(p.mstones[i].req_votes)
                },
            },
        }
    }

    /// Records the vote of `backer` on the first pending milestone of the
    /// project `project_id`, on which `backer` must not have voted. Once the
    /// milestone has the votes it requires, and `threshold` of them in
    /// favour, it is decided: if it is the last one, the project is done.
    /// Returns whether the milestone is decided.
    pub fn vote_on_milestone(&mut self, project_id: u32, backer: Address, vote: bool, threshold: u32) -> (r:
        Result<bool, Error>)
        requires
            old(self).wf(),
        ensures
            final(self).wf(),
            r is Ok <==> old(self)@.vote_result(project_id, backer@) is Ok,
            r is Err ==> Err::<(), Error>(r->Err_0) == old(self)@.vote_result(project_id, backer@)
                && final(self)@ == old(self)@,
            r is Ok ==> exists|i: int|
                {
                    &&& #[trigger] old(self)@.projects[project_id].first_pending_is(i)
                    &&& final(self)@ == (FundingView {
                        projects: old(self)@.projects.insert(
                            project_id,
                            old(self)@.projects[project_id].after_vote(i, backer@, vote, threshold as nat),
                        ),
                        ..old(self)@
                    })
                    &&& r->Ok_0 == old(self)@.projects[project_id].after_vote(
                        i,
                        backer@,
                        vote,
                        threshold as nat,
                    ).mstones[i].passes(threshold as nat)
                },
    {
        let ghost before = self@;
        let current = match self.projects.get(&project_id) {
            None => {
                return Err(Error::NotFound);
            },
            Some(p) => match p.first_pending() {
                None => {
                    return Err(Error::NoMStone);
                },
                Some(i) => {
                    assert(p@.mstones[i as int] == p.mstones@[i as int]@);
                    proof {
                        lemma_map_of_dom(p.mstones@[i as int].votes.entries@);
                    }
                    if p.mstones[i].votes.contains_key(&backer) {
                        return Err(Error::Voted);
                    }
                    assert forall|j: int|
                        p@.first_pending_is(j) implies !p@.mstones[j].votes.contains_key(backer@) by {
                        if j < i {
                            assert(p@.mstones[j].status != StageStatus::Pending);
                        } else if j > i {
                            assert(p@.mstones[i as int].status != StageStatus::Pending);
                        }
                    }
                    i
                },
            },
        };
        let mut project = match self.projects.remove(&project_id) {
            Some(p) => p,
            None => {
                assert(self@.projects =~= before.projects);
                return Err(Error::NotFound);
            },
        };
        let ghost was = project@;
        assert(was.mstones[current as int] == project.mstones@[current as int]@);
        project.mstones[current].votes.set(backer, vote);
        let total = project.mstones[current].votes.len();
        let positive = project.mstones[current].votes_for();
        let decided = total >= project.mstones[current].req_votes as usize && positive
            >= threshold as usize;
        if decided && current == project.mstones.len() - 1 {
            project.status = ProjectStatus::Done;
        }
        proof {
            let now = was.after_vote(current as int, backer@, vote, threshold as nat);
            assert(project@.mstones[current as int] == project.mstones@[current as int]@);
            assert(project@.mstones[current as int].votes =~= now.mstones[current as int].votes);
            assert(project@.mstones[current as int].voters =~= now.mstones[current as int].voters);
            assert(project@.mstones[current as int] == now.mstones[current as int]);
            assert(project@.mstones =~= now.mstones);
            assert(project@.backers =~= now.backers);
            assert(project@ == now);
        }
        self.projects.insert(project_id, project);
        proof {
            assert(self@.projects =~= before.projects.insert(
                project_id,
                before.projects[project_id].after_vote(
                    current as int,
                    backer@,
                    vote,
                    threshold as nat,
                ),
            ));
            assert(before.projects[project_id].first_pending_is(current as int));
        }
        Ok(decided)
    }

    /// The project `project_id`.
    pub fn get_project(&self, project_id: u32) -> (r: Result<&Project, Error>)
        ensures
            match r {
                Ok(p) => self@.projects.contains_key(project_id) && p@ == self@.projects[project_id],
                Err(e) => !self@.projects.contains_key(project_id) && e == Error::NotFound,
            },
    {
        match self.projects.get(&project_id) {
            Some(p) => Ok(p),
            None => Err(Error::NotFound),
        }
    }

    /// The milestone at `milestone_index` of the project `project_id`.
    pub fn get_milestone(&self, project_id: u32, milestone_index: u32) -> (r: Result<
        &Milestone,
        Error,
    >)
        ensures
            match r {
                Ok(m) => {
                    &&& self@.projects.contains_key(project_id)
                    &&& milestone_index < self@.projects[project_id].mstones.len()
                    &&& m@ == self@.projects[project_id].mstones[milestone_index as int]
                },
                Err(e) => if self@.projects.contains_key(project_id) {
                    milestone_index >= self@.projects[project_id].mstones.len() && e
                        == Error::NoMStone
                } else {
                    e == Error::NotFound
                },
            },
    {
        match self.projects.get(&project_id) {
            None => Err(Error::NotFound),
            Some(p) => {
                let i = milestone_index as usize;
                if i < p.mstones.len() {
                    assert(p@.mstones[i as int] == p.mstones@[i as int]@);
                    Ok(&p.mstones[i])
                } else {
                    Err(Error::NoMStone)
                }
            },
        }
    }

    /// The balance of the project `project_id`.
    pub fn get_project_balance(&self, project_id: u32) -> (r: Result<i128, Error>)
        ensures
            match r {
                Ok(b) => self@.projects.contains_key(project_id) && b
                    == self@.projects[project_id].balance,
                Err(e) => !self@.projects.contains_key(project_id) && e == Error::NotFound,
            },
    {
        match self.projects.get(&project_id) {
            Some(p) => Ok(p.balance),
            None => Err(Error::NotFound),
        }
    }
}

} // verus!
