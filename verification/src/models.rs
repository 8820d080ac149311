//! The items that the upstream API serves.

use vstd::prelude::*;

verus! {

/// A story as the upstream API describes it.
#[derive(Debug, PartialEq, Eq)]
pub struct Story {
    pub id: u32,
    pub title: Option<String>,
    pub url: Option<String>,
    pub by: Option<String>,
    pub score: Option<u32>,
    pub time: Option<i64>,
    pub descendants: Option<u32>,
    pub kids: Option<Vec<u32>>,
}

/// A comment as the upstream API describes it.
#[derive(Debug, PartialEq, Eq)]
pub struct Comment {
    pub id: u32,
    pub by: Option<String>,
    pub text: Option<String>,
    pub time: Option<i64>,
    pub parent: Option<u32>,
    pub kids: Option<Vec<u32>>,
    pub deleted: bool,
}

/// What a [`Story`] holds.
pub struct StoryView {
    pub id: u32,
    pub title: Option<Seq<char>>,
    pub url: Option<Seq<char>>,
    pub by: Option<Seq<char>>,
    pub score: Option<u32>,
    pub time: Option<i64>,
    pub descendants: Option<u32>,
    pub kids: Option<Seq<u32>>,
}

/// What a [`Comment`] holds.
pub struct CommentView {
    pub id: u32,
    pub by: Option<Seq<char>>,
    pub text: Option<Seq<char>>,
    pub time: Option<i64>,
    pub parent: Option<u32>,
    pub kids: Option<Seq<u32>>,
    pub deleted: bool,
}

/// The characters of an optional text.
pub open spec fn spec_text(text: Option<String>) -> Option<Seq<char>> {
    match text {
        Some(t) => Some(t@),
        None => None,
    }
}

/// The ids of an optional list.
pub open spec fn spec_ids(ids: Option<Vec<u32>>) -> Option<Seq<u32>> {
    match ids {
        Some(v) => Some(v@),
        None => None,
    }
}

impl View for Story {
    type V = StoryView;

    open spec fn view(&self) -> StoryView {
        StoryView {
            id: self.id,
            title: spec_text(self.title),
            url: spec_text(self.url),
            by: spec_text(self.by),
            score: self.score,
            time: self.time,
            descendants: self.descendants,
            kids: spec_ids(self.kids),
        }
    }
}

impl View for Comment {
    type V = CommentView;

    open spec fn view(&self) -> CommentView {
        CommentView {
            id: self.id,
            by: spec_text(self.by),
            text: spec_text(self.text),
            time: self.time,
            parent: self.parent,
            kids: spec_ids(self.kids),
            deleted: self.deleted,
        }
    }
}

fn clone_text(text: &Option<String>) -> (copy: Option<String>)
    ensures
        spec_text(copy) == spec_text(*text),
{
    match text {
        Some(t) => Some(t.clone()),
        None => None,
    }
}

fn clone_ids(ids: &Option<Vec<u32>>) -> (copy: Option<Vec<u32>>)
    ensures
        spec_ids(copy) == spec_ids(*ids),
{
    match ids {
        Some(v) => {
            let copy = v.clone();
            assert(copy@ =~= v@);
            Some(copy)
        },
        None => None,
    }
}

impl Clone for Story {
    /// A clone holds what the story holds.
    fn clone(&self) -> (copy: Story)
        ensures
            copy@ == self@,
    {
        Story {
            id: self.id,
            title: clone_text(&self.title),
            url: clone_text(&self.url),
            by: clone_text(&self.by),
            score: self.score,
            time: self.time,
            descendants: self.descendants,
            kids: clone_ids(&self.kids),
        }
    }
}

impl Clone for Comment {
    /// A clone holds what the comment holds.
    fn clone(&self) -> (copy: Comment)
        ensures
            copy@ == self@,
    {
        Comment {
            id: self.id,
            by: clone_text(&self.by),
            text: clone_text(&self.text),
            time: self.time,
            parent: self.parent,
            kids: clone_ids(&self.kids),
            deleted: self.deleted,
        }
    }
}

} // verus!
