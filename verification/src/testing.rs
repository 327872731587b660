//! Stand-ins for the terminal and GitHub that tests drive the orchestrator
//! logic with: a terminal whose panes show what a test set and which
//! records the keys sent to it, and a GitHub that accepts every review.
use vstd::prelude::*;
use vstd::string::*;
use crate::review::ReviewFileComment;
use crate::text::{assoc, lemma_assoc_found, lemma_assoc_missing, lemma_assoc_push, lemma_assoc_update, assoc_set, same_text};

verus! {

pub open spec fn text_pairs(v: Seq<(String, String)>) -> Seq<(Seq<char>, Seq<char>)> {
    v.map_values(|p: (String, String)| (p.0@, p.1@))
}

/// A terminal whose panes show what a test put there.
#[derive(Debug, Clone)]
pub struct MockTerminalSession {
    /// Pane contents by terminal target.
    pub pane_content: Vec<(String, String)>,
    /// Keys sent, with their target, in order.
    pub sent_keys: Vec<(String, String)>,
}

impl MockTerminalSession {
    pub open spec fn panes(&self) -> Seq<(Seq<char>, Seq<char>)> {
        text_pairs(self.pane_content@)
    }

    /// A terminal with no content and no keys sent.
    pub fn new() -> (s: MockTerminalSession)
        ensures
            s.pane_content@.len() == 0,
            s.sent_keys@.len() == 0,
    {
        MockTerminalSession { pane_content: Vec::new(), sent_keys: Vec::new() }
    }

    /// Make pane `target` show `content`.
    pub fn set_pane_content(&mut self, target: &str, content: &str)
        ensures
            forall|k: Seq<char>| #[trigger] assoc(final(self).panes(), k) == assoc_set(
                old(self).panes(),
                target@,
                content@,
                k,
            ),
            final(self).sent_keys@ == old(self).sent_keys@,
    {
        let ghost list = self.panes();
        let mut i: usize = 0;
        while i < self.pane_content.len()
            invariant
                i <= self.pane_content@.len(),
                list == self.panes(),
                self.pane_content@ == old(self).pane_content@,
                self.sent_keys@ == old(self).sent_keys@,
                forall|j: int| 0 <= j < i ==> list[j].0 != target@,
            decreases self.pane_content@.len() - i,
        {
            if same_text(self.pane_content[i].0.as_str(), target) {
                self.pane_content.set(i, (String::from_str(target), String::from_str(content)));
                assert(self.panes() =~= list.update(i as int, (target@, content@)));
                assert forall|k: Seq<char>| #[trigger] assoc(self.panes(), k) == assoc_set(list, target@, content@, k) by {
                    lemma_assoc_update(list, i as int, target@, content@, k);
                }
                return;
            }
            i = i + 1;
        }
        proof {
            lemma_assoc_missing(list, target@);
        }
        self.pane_content.push((String::from_str(target), String::from_str(content)));
        assert(self.panes() =~= list.push((target@, content@)));
        assert forall|k: Seq<char>| #[trigger] assoc(self.panes(), k) == assoc_set(list, target@, content@, k) by {
            lemma_assoc_push(list, (target@, content@), k);
        }
    }

    /// What pane `target` shows: what was set for it, or nothing.
    pub fn capture_pane(&self, target: &str) -> (r: String)
        ensures
            match assoc(self.panes(), target@) {
                Some(c) => r@ == c,
                None => r@.len() == 0,
            },
    {
        let ghost list = self.panes();
        let mut i: usize = 0;
        while i < self.pane_content.len()
            invariant
                i <= self.pane_content@.len(),
                list == self.panes(),
                forall|j: int| 0 <= j < i ==> list[j].0 != target@,
            decreases self.pane_content@.len() - i,
        {
            if same_text(self.pane_content[i].0.as_str(), target) {
                proof {
                    lemma_assoc_found(list, target@, i as int);
                }
                return self.pane_content[i].1.clone();
            }
            i = i + 1;
        }
        proof {
            lemma_assoc_missing(list, target@);
        }
        String::new()
    }

    /// Record `text` sent to `target` (with or without Enter: the record is
    /// the same).
    pub fn send_keys(&mut self, target: &str, text: &str)
        ensures
            text_pairs(final(self).sent_keys@) == text_pairs(old(self).sent_keys@).push((target@, text@)),
            final(self).pane_content@ == old(self).pane_content@,
    {
        self.sent_keys.push((String::from_str(target), String::from_str(text)));
        assert(text_pairs(self.sent_keys@) =~= text_pairs(old(self).sent_keys@).push((target@, text@)));
    }
}

/// The base and head of a pull request.
#[derive(Debug, Clone)]
pub struct PullRequestRefs {
    pub base_ref: String,
    pub base_sha: String,
    pub head_ref: String,
    pub head_sha: String,
}

/// A GitHub that accepts every review, has no changed files, and reports
/// every pull request as `feature` (head `111…1`) onto `main` (base
/// `000…0`).
#[derive(Debug, Clone, Copy)]
pub struct MockGitHubReview;

/// The base commit the mock reports for every pull request.
pub const MOCK_BASE_SHA: &'static str = "0000000000000000000000000000000000000000";

/// The head commit the mock reports for every pull request.
pub const MOCK_HEAD_SHA: &'static str = "1111111111111111111111111111111111111111";

impl MockGitHubReview {
    /// Accept a review.
    pub fn post_review(
        &self,
        owner: &str,
        repo: &str,
        number: u64,
        body: &str,
        comments: &Vec<ReviewFileComment>,
    ) -> (r: Result<(), String>)
        ensures
            r is Ok,
    {
        Ok(())
    }

    /// No changed files.
    pub fn get_diff_files(&self, owner: &str, repo: &str, number: u64) -> (r: Result<Vec<String>, String>)
        ensures
            r matches Ok(v) && v@.len() == 0,
    {
        Ok(Vec::new())
    }

    /// The refs of every pull request.
    pub fn get_pr_base(&self, owner: &str, repo: &str, number: u64) -> (r: Result<PullRequestRefs, String>)
        ensures
            r matches Ok(refs) && refs.base_ref@ == "main"@ && refs.base_sha@ == MOCK_BASE_SHA@ && refs.head_ref@
                == "feature"@ && refs.head_sha@ == MOCK_HEAD_SHA@,
    {
        Ok(
            PullRequestRefs {
                base_ref: String::from_str("main"),
                base_sha: String::from_str(MOCK_BASE_SHA),
                head_ref: String::from_str("feature"),
                head_sha: String::from_str(MOCK_HEAD_SHA),
            },
        )
    }
}

/// A blueprint reader for tests that never read a blueprint.
#[derive(Debug, Clone, Copy)]
pub struct MockBlueprintReader;

} // verus!
