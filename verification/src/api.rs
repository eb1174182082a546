//! The script-facing command surface: each call a script can make is turned
//! into a plain command value that the event loop executes. Marshalling
//! between interpreter values and these plain values happens in the driver;
//! the decisions — which command, and whether the arguments are acceptable —
//! are made here.

use vstd::prelude::*;

verus! {

/// A command a script asked the compositor to carry out.
pub enum ConfigCommands {
    Spawn(String),
    SwitchWS(u8),
    MoveWindow(u8),
    MoveWindowAndFollow(u8),
    CloseWindow,
    Quit,
}

/// Why a script call was rejected.
#[derive(Clone, Copy, Debug, PartialEq, Eq, Structural)]
pub enum ApiError {
    /// `proc.spawn` was handed an empty command list.
    EmptyCommand,
}

/// The words of a command line joined with single spaces.
pub open spec fn join_words(ws: Seq<Seq<char>>) -> Seq<char>
    decreases ws.len(),
{
    if ws.len() == 0 {
        Seq::empty()
    } else if ws.len() == 1 {
        ws[0]
    } else {
        ws[0] + seq![' '] + join_words(ws.skip(1))
    }
}

/// The entry points scripts call.
pub struct StrataApi;

impl StrataApi {
    /// `proc.spawn`: accepts a non-empty command list and yields the spawn
    /// command with the words joined by spaces; an empty list is rejected.
    pub fn spawn(cmd: &Vec<String>) -> (r: Result<ConfigCommands, ApiError>)
        ensures
            cmd@.len() == 0 ==> r == Result::<ConfigCommands, ApiError>::Err(
                ApiError::EmptyCommand,
            ),
            cmd@.len() > 0 ==> (r matches Ok(c) && (c matches ConfigCommands::Spawn(s) && s@
                == join_words(cmd@.map_values(|w: String| w@)))),
    {
        if cmd.len() == 0 {
            return Err(ApiError::EmptyCommand);
        }
        let ghost words = cmd@.map_values(|w: String| w@);
        let mut joined = cmd[0].clone();
        let n = cmd.len();
        let mut i: usize = 1;
        proof {
            assert(words.take(1) =~= seq![words[0]]);
            assert(join_words(seq![words[0]]) == words[0]);
        }
        while i < n
            invariant
                1 <= i <= n,
                n == cmd@.len(),
                joined@ == join_words(cmd@.map_values(|w: String| w@).take(i as int)),
            decreases n - i,
        {
            joined = joined.concat(" ");
            joined = joined.concat(cmd[i].as_str());
            proof {
                reveal_strlit(" ");
                assert(" "@ =~= seq![' ']);
                lemma_join_words_push(
                    cmd@.map_values(|w: String| w@).take(i as int),
                    cmd@[i as int]@,
                );
                assert(cmd@.map_values(|w: String| w@).take(i + 1) =~= cmd@.map_values(
                    |w: String| w@,
                ).take(i as int).push(cmd@[i as int]@));
            }
            i += 1;
        }
        proof {
            assert(cmd@.map_values(|w: String| w@).take(n as int) =~= cmd@.map_values(
                |w: String| w@,
            ));
        }
        Ok(ConfigCommands::Spawn(joined))
    }

    /// `switch_to_ws`: switch the active workspace.
    pub fn switch_to_ws(id: u8) -> (r: ConfigCommands)
        ensures
            r == ConfigCommands::SwitchWS(id),
    {
        ConfigCommands::SwitchWS(id)
    }

    /// `move_window`: move the window under the pointer to a workspace.
    pub fn move_window(id: u8) -> (r: ConfigCommands)
        ensures
            r == ConfigCommands::MoveWindow(id),
    {
        ConfigCommands::MoveWindow(id)
    }

    /// `move_window_and_follow`: move the window and activate the target.
    pub fn move_window_and_follow(id: u8) -> (r: ConfigCommands)
        ensures
            r == ConfigCommands::MoveWindowAndFollow(id),
    {
        ConfigCommands::MoveWindowAndFollow(id)
    }

    /// `close_window`: ask the window under the pointer to close.
    pub fn close_window() -> (r: ConfigCommands)
        ensures
            r == ConfigCommands::CloseWindow,
    {
        ConfigCommands::CloseWindow
    }

    /// `quit`: stop the event loop.
    pub fn quit() -> (r: ConfigCommands)
        ensures
            r == ConfigCommands::Quit,
    {
        ConfigCommands::Quit
    }
}

/// Appending a word to a non-empty command line appends a space and the word.
pub proof fn lemma_join_words_push(ws: Seq<Seq<char>>, w: Seq<char>)
    requires
        ws.len() >= 1,
    ensures
        join_words(ws.push(w)) == join_words(ws) + seq![' '] + w,
    decreases ws.len(),
{
    if ws.len() == 1 {
        assert(ws.push(w)[0] == ws[0]);
        assert(ws.push(w).skip(1) =~= seq![w]);
        assert(join_words(seq![w]) == w);
        assert(ws[0] + seq![' '] + w == join_words(ws) + seq![' '] + w);
    } else {
        assert(ws.push(w).skip(1) =~= ws.skip(1).push(w));
        assert(ws.push(w)[0] == ws[0]);
        lemma_join_words_push(ws.skip(1), w);
        assert(ws[0] + seq![' '] + (join_words(ws.skip(1)) + seq![' '] + w) =~= (ws[0] + seq![' ']
            + join_words(ws.skip(1))) + seq![' '] + w);
    }
}

} // verus!
