//! The records of project funding: projects, their milestones, and the
//! votes of the backers.

use crate::address::{Address, AddressMap};
use std::collections::HashMap;
use vstd::prelude::*;

verus! {

/// Why an operation on a project was refused.
#[derive(Clone, Copy, Debug, PartialEq, Eq, Structural)]
pub enum Error {
    NotFound,
    Invalid,
    Expired,
    Inactive,
    NoAccess,
    NoMStone,
    BadState,
    Voted,
}

/// Where a project stands.
#[derive(Clone, Copy, Debug, PartialEq, Eq, Structural)]
pub enum ProjectStatus {
    Active,
    Done,
}

/// Where a milestone stands.
#[derive(Clone, Copy, Debug, PartialEq, Eq, Structural)]
pub enum StageStatus {
    Pending,
    Done,
}

/// A stage of a project, decided by the votes of the backers.
#[derive(Debug, PartialEq, Eq)]
pub struct Milestone {
    pub title: String,
    pub desc: String,
    pub amt: i128,
    pub votes: AddressMap<bool>,
    pub req_votes: u32,
    pub status: StageStatus,
}

/// What a milestone is, as mathematics.
pub struct MilestoneView {
    pub title: Seq<char>,
    pub desc: Seq<char>,
    pub amt: int,
    pub votes: Map<Seq<char>, bool>,
    pub voters: Seq<Seq<char>>,
    pub req_votes: nat,
    pub status: StageStatus,
}

impl View for Milestone {
    type V = MilestoneView;

    open spec fn view(&self) -> MilestoneView {
        MilestoneView {
            title: self.title@,
            desc: self.desc@,
            amt: self.amt as int,
            votes: self.votes@,
            voters: self.votes.keys(),
            req_votes: self.req_votes as nat,
            status: self.status,
        }
    }
}

/// A project that backers fund up to its target.
#[derive(Debug, PartialEq, Eq)]
pub struct Project {
    pub id: u32,
    pub owner: Address,
    pub title: String,
    pub desc: String,
    pub target: i128,
    pub current: i128,
    pub balance: i128,
    pub token: Address,
    pub status: ProjectStatus,
    pub backers: AddressMap<i128>,
    pub mstones: Vec<Milestone>,
}

/// What a project is, as mathematics.
pub struct ProjectView {
    pub id: nat,
    pub owner: Seq<char>,
    pub title: Seq<char>,
    pub desc: Seq<char>,
    pub target: int,
    pub current: int,
    pub balance: int,
    pub token: Seq<char>,
    pub status: ProjectStatus,
    pub backers: Map<Seq<char>, int>,
    pub mstones: Seq<MilestoneView>,
}

impl View for Project {
    type V = ProjectView;

    open spec fn view(&self) -> ProjectView {
        ProjectView {
            id: self.id as nat,
            owner: self.owner@,
            title: self.title@,
            desc: self.desc@,
            target: self.target as int,
            current: self.current as int,
            balance: self.balance as int,
            token: self.token@,
            status: self.status,
            backers: self.backers@.map_values(|a: i128| a as int),
            mstones: self.mstones@.map_values(|m: Milestone| m@),
        }
    }
}

/// Project funding: the id of the next project, and the projects by id.
#[derive(Debug)]
pub struct ProjectFunding {
    pub next_id: u32,
    pub projects: HashMap<u32, Project>,
}

/// What project funding is, as mathematics.
pub struct FundingView {
    pub next_id: nat,
    pub projects: Map<u32, ProjectView>,
}

impl View for ProjectFunding {
    type V = FundingView;

    open spec fn view(&self) -> FundingView {
        FundingView {
            next_id: self.next_id as nat,
            projects: self.projects@.map_values(|p: Project| p@),
        }
    }
}

} // verus!
