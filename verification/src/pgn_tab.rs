//! The PGN review tab: which file is loaded, what its loading reported, and
//! how the tab moves through the games and plies of the loaded file.

use vstd::prelude::*;
use crate::coordination::{next_generation, wrapping_next};
use crate::pgn_import::{parse_pgn, parse_pgn_spec};
use crate::pgn_review::{
    current_board_of, new_session_spec, next_game_spec, next_ply_spec, previous_game_spec,
    previous_ply_spec, session_wf, PgnReviewSession,
};
use crate::text::{push_str, string_from_chars};

verus! {

/// What the tab is asked to do.
#[derive(Debug)]
pub enum PgnMessage {
    ChooseFile,
    FileSelected(Option<String>),
    FileRead { generation: u64, path: String, content: Result<String, String> },
    PreviousGame,
    NextGame,
    PreviousPly,
    NextPly,
}

/// What the tab asks of the outside world after a message.
#[derive(Debug)]
pub enum PgnAction {
    Nothing,
    /// Ask the user for a PGN file.
    PickFile,
    /// Read the file, and answer with the load number given.
    ReadFile { path: String, generation: u64 },
}

/// The PGN review tab: the session of the loaded file, the file's path, the
/// status of the last load, and the number of the latest load asked for.
pub struct PgnTab {
    pub session: Option<PgnReviewSession>,
    pub source: Option<String>,
    pub status: Option<String>,
    pub load_generation: u64,
}

impl PgnTab {
    /// The loaded session, when there is one, keeps its own invariant.
    pub open spec fn wf(&self) -> bool {
        self.session matches Some(s) ==> session_wf(s@)
    }

    /// An empty tab.
    pub fn new() -> (res: Self)
        ensures
            res.wf(),
            res.session is None,
            res.source is None,
            res.status is None,
            res.load_generation == 0,
    {
        PgnTab { session: None, source: None, status: None, load_generation: 0 }
    }

    /// The board shown: the current position of the loaded session.
    pub fn current_board(&self) -> (res: Option<&String>)
        requires
            self.wf(),
        ensures
            match self.session {
                Some(s) => (res matches Some(b) && b@ == current_board_of(s@)),
                None => res is None,
            },
    {
        match &self.session {
            Some(s) => Some(s.current_board()),
            None => None,
        }
    }

    /// Loads a PGN text read from a file: on success the tab shows its first
    /// game at its first ply; on failure nothing changes.
    pub fn load_from_text(&mut self, source: String, content: &str) -> (res: Result<(), String>)
        requires
            old(self).wf(),
            content@.len() < usize::MAX,
        ensures
            final(self).wf(),
            final(self).status == old(self).status,
            final(self).load_generation == old(self).load_generation,
            match parse_pgn_spec(content@) {
                Ok(games) => match new_session_spec(games) {
                    Ok(v) => res is Ok && (final(self).session matches Some(s) && s@ == v)
                        && final(self).source == Some(source),
                    Err(e) => (res matches Err(m) && m@ == e) && final(self).session
                        == old(self).session && final(self).source == old(self).source,
                },
                Err(e) => (res matches Err(m) && m@ == e) && final(self).session == old(self).session && final(self).source == old(self).source,
            },
    {
        let games = match parse_pgn(content) {
            Ok(g) => g,
            Err(e) => {
                return Err(e);
            },
        };
        let session = match PgnReviewSession::new(games) {
            Ok(s) => s,
            Err(e) => {
                return Err(e);
            },
        };
        self.session = Some(session);
        self.source = Some(source);
        Ok(())
    }

    /// Handles a message of the tab. A file's content counts only if it
    /// answers the latest load; a failed load keeps what was shown and
    /// reports the error after the given label.
    pub fn update(&mut self, message: PgnMessage, error_label: &str) -> (res: PgnAction)
        requires
            old(self).wf(),
            message matches PgnMessage::FileRead { content: Ok(c), .. } ==> c@.len() < usize::MAX,
        ensures
            final(self).wf(),
            match message {
                PgnMessage::ChooseFile => res is PickFile && *final(self) == *old(self),
                PgnMessage::FileSelected(None) => res is Nothing && *final(self) == *old(self),
                PgnMessage::FileSelected(Some(path)) => final(self).load_generation == wrapping_next(
                    old(self).load_generation,
                ) && (res matches PgnAction::ReadFile { path: p, generation } && p == path
                    && generation == final(self).load_generation) && final(self).session == old(self).session && final(self).source == old(self).source && final(self).status == old(self).status,
                PgnMessage::FileRead { generation, path, content } => res is Nothing
                    && final(self).load_generation == old(self).load_generation && if generation
                    != old(self).load_generation {
                    *final(self) == *old(self)
                } else {
                    match content {
                        Err(e) => final(self).session == old(self).session && final(self).source
                            == old(self).source && (final(self).status matches Some(st) && st@
                            == error_label@ + ": "@ + e@),
                        Ok(c) => match parse_pgn_spec(c@) {
                            Ok(games) => match new_session_spec(games) {
                                Ok(v) => (final(self).session matches Some(s) && s@ == v)
                                    && final(self).source == Some(path) && final(self).status is None,
                                Err(e) => final(self).session == old(self).session
                                    && final(self).source == old(self).source && (final(self).status matches Some(st) && st@ == error_label@ + ": "@ + e),
                            },
                            Err(e) => final(self).session == old(self).session && final(self).source == old(self).source && (final(self).status matches Some(st)
                                && st@ == error_label@ + ": "@ + e),
                        },
                    }
                },
                PgnMessage::PreviousGame => res is Nothing && final(self).source == old(self).source
                    && final(self).status == old(self).status && match old(self).session {
                    Some(s) => final(self).session matches Some(t) && t@ == previous_game_spec(s@).1,
                    None => final(self).session is None,
                },
                PgnMessage::NextGame => res is Nothing && final(self).source == old(self).source
                    && final(self).status == old(self).status && match old(self).session {
                    Some(s) => final(self).session matches Some(t) && t@ == next_game_spec(s@).1,
                    None => final(self).session is None,
                },
                PgnMessage::PreviousPly => res is Nothing && final(self).source == old(self).source
                    && final(self).status == old(self).status && match old(self).session {
                    Some(s) => final(self).session matches Some(t) && t@ == previous_ply_spec(s@).1,
                    None => final(self).session is None,
                },
                PgnMessage::NextPly => res is Nothing && final(self).source == old(self).source
                    && final(self).status == old(self).status && match old(self).session {
                    Some(s) => final(self).session matches Some(t) && t@ == next_ply_spec(s@).1,
                    None => final(self).session is None,
                },
            },
    {
        match message {
            PgnMessage::ChooseFile => PgnAction::PickFile,
            PgnMessage::FileSelected(None) => PgnAction::Nothing,
            PgnMessage::FileSelected(Some(path)) => {
                let generation = next_generation(&mut self.load_generation);
                PgnAction::ReadFile { path, generation }
            },
            PgnMessage::FileRead { generation, path, content } => {
                if generation != self.load_generation {
                    return PgnAction::Nothing;
                }
                let outcome = match content {
                    Ok(c) => self.load_from_text(path, c.as_str()),
                    Err(e) => Err(e),
                };
                match outcome {
                    Ok(()) => {
                        self.status = None;
                    },
                    Err(e) => {
                        let mut out: Vec<char> = Vec::new();
                        push_str(&mut out, error_label);
                        push_str(&mut out, ": ");
                        push_str(&mut out, e.as_str());
                        self.status = Some(string_from_chars(&out));
                    },
                }
                PgnAction::Nothing
            },
            PgnMessage::PreviousGame => {
                if let Some(s) = &mut self.session {
                    s.previous_game();
                }
                PgnAction::Nothing
            },
            PgnMessage::NextGame => {
                if let Some(s) = &mut self.session {
                    s.next_game();
                }
                PgnAction::Nothing
            },
            PgnMessage::PreviousPly => {
                if let Some(s) = &mut self.session {
                    s.previous_ply();
                }
                PgnAction::Nothing
            },
            PgnMessage::NextPly => {
                if let Some(s) = &mut self.session {
                    s.next_ply();
                }
                PgnAction::Nothing
            },
        }
    }

    /// A header's value, or `-` when the game has none.
    pub fn header_or_dash(value: Option<&String>) -> (res: String)
        ensures
            match value {
                Some(v) => res@ == v@,
                None => res@ == seq!['-'],
            },
    {
        match value {
            Some(v) => v.clone(),
            None => {
                let mut out: Vec<char> = Vec::new();
                out.push('-');
                string_from_chars(&out)
            },
        }
    }
}

} // verus!
