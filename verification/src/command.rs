//! What a user can type at the prompt.

use vstd::prelude::*;

use crate::decimal::parse_u128;
use crate::decimal::{decimal, law_decimal_reads_back, parsed_decimal};
use crate::text::{same_text, words};
use crate::text::{text_views, words_of};

verus! {

/// The port to listen on when none is given.
pub const DEFAULT_PORT: u16 = 7331;

/// A command.
#[derive(Debug, Clone)]
pub enum Command {
    Help,
    /// Wait for peers.
    Listen { port: u16 },
    /// Find a peer through the server and talk to them.
    Chat { target: u128 },
    /// `chat` without the number of a peer.
    ChatUsage,
    /// Talk to the peer at an address.
    Connect { addr: String },
    /// `connect` without an address.
    ConnectUsage,
    Quit,
    Unknown { name: String },
}

/// What a `Command` says.
pub enum CommandView {
    Help,
    Listen { port: u16 },
    Chat { target: u128 },
    ChatUsage,
    Connect { addr: Seq<char> },
    ConnectUsage,
    Quit,
    Unknown { name: Seq<char> },
}

impl View for Command {
    type V = CommandView;

    open spec fn view(&self) -> CommandView {
        match *self {
            Command::Help => CommandView::Help,
            Command::Listen { port } => CommandView::Listen { port },
            Command::Chat { target } => CommandView::Chat { target },
            Command::ChatUsage => CommandView::ChatUsage,
            Command::Connect { addr } => CommandView::Connect { addr: addr@ },
            Command::ConnectUsage => CommandView::ConnectUsage,
            Command::Quit => CommandView::Quit,
            Command::Unknown { name } => CommandView::Unknown { name: name@ },
        }
    }
}

/// The number that a word spells, if there is one and it is at most `max`.
pub open spec fn number_up_to(words: Seq<Seq<char>>, at: int, max: nat) -> Option<nat> {
    if at < words.len() && parsed_decimal(words[at]) is Some && parsed_decimal(words[at])->0 <= max {
        parsed_decimal(words[at])
    } else {
        None
    }
}

/// The command that `words` spell: the first names it, the second is its
/// argument, and what follows does not matter.
pub open spec fn command_of(words: Seq<Seq<char>>) -> CommandView {
    if words[0] == "help"@ {
        CommandView::Help
    } else if words[0] == "listen"@ {
        CommandView::Listen {
            port: match number_up_to(words, 1, u16::MAX as nat) {
                Some(n) => n as u16,
                None => DEFAULT_PORT,
            },
        }
    } else if words[0] == "chat"@ {
        match number_up_to(words, 1, u128::MAX as nat) {
            Some(n) => CommandView::Chat { target: n as u128 },
            None => CommandView::ChatUsage,
        }
    } else if words[0] == "connect"@ {
        if words.len() > 1 {
            CommandView::Connect { addr: words[1] }
        } else {
            CommandView::ConnectUsage
        }
    } else if words[0] == "quit"@ {
        CommandView::Quit
    } else {
        CommandView::Unknown { name: words[0] }
    }
}

fn number_at(words: &Vec<String>, at: usize) -> (n: Option<u128>)
    ensures
        match n {
            Some(v) => number_up_to(text_views(words@), at as int, u128::MAX as nat) == Some(
                v as nat,
            ),
            None => number_up_to(text_views(words@), at as int, u128::MAX as nat) is None,
        },
{
    if at < words.len() {
        assert(text_views(words@)[at as int] == words@[at as int]@);
        parse_u128(words[at].as_str())
    } else {
        None
    }
}

/// The command in a line of input, if there is anything but white space in it.
pub fn parse_command(line: &str) -> (command: Option<Command>)
    ensures
        match command {
            Some(c) => words_of(line@).len() > 0 && c@ == command_of(words_of(line@)),
            None => words_of(line@).len() == 0,
        },
        match command {
            Some(Command::Help) => words_of(line@)[0] == "help"@,
            Some(Command::Listen { port }) => command_of(words_of(line@)) == (CommandView::Listen {
                port,
            }),
            Some(Command::Chat { target }) => command_of(words_of(line@)) == (CommandView::Chat {
                target,
            }),
            Some(Command::ChatUsage) => words_of(line@)[0] == "chat"@,
            Some(Command::Connect { addr }) => words_of(line@).len() > 1 && addr@ == words_of(
                line@,
            )[1],
            Some(Command::ConnectUsage) => words_of(line@).len() == 1,
            Some(Command::Quit) => words_of(line@)[0] == "quit"@,
            Some(Command::Unknown { name }) => name@ == words_of(line@)[0],
            None => true,
        },
{
    let words = words(line);
    let ghost views = text_views(words@);
    if words.len() == 0 {
        return None;
    }
    let name = words[0].as_str();
    assert(views[0] == words@[0]@);
    let command = if same_text(name, "help") {
        Command::Help
    } else if same_text(name, "listen") {
        let port: u16 = match number_at(&words, 1) {
            Some(n) => if n <= u16::MAX as u128 {
                n as u16
            } else {
                DEFAULT_PORT
            },
            None => DEFAULT_PORT,
        };
        Command::Listen { port }
    } else if same_text(name, "chat") {
        match number_at(&words, 1) {
            Some(target) => Command::Chat { target },
            None => Command::ChatUsage,
        }
    } else if same_text(name, "connect") {
        if words.len() > 1 {
            assert(views[1] == words@[1]@);
            Command::Connect { addr: words[1].clone() }
        } else {
            Command::ConnectUsage
        }
    } else if same_text(name, "quit") {
        Command::Quit
    } else {
        Command::Unknown { name: words[0].clone() }
    };
    Some(command)
}

/// `listen` with the number of a port, as it is written, listens on that port;
/// without one, or with what is no number of a port, on port 7331.
pub proof fn law_listen(port: u16, rest: Seq<Seq<char>>, word: Seq<char>)
    ensures
        command_of(seq!["listen"@, decimal(port as nat)] + rest) == (CommandView::Listen { port }),
        command_of(seq!["listen"@]) == (CommandView::Listen { port: 7331 }),
        parsed_decimal(word) matches Some(n) ==> n <= 65535 ==> command_of(
            seq!["listen"@, word] + rest,
        ) == (CommandView::Listen { port: n as u16 }),
        parsed_decimal(word) is None || parsed_decimal(word)->0 > 65535 ==> command_of(
            seq!["listen"@, word] + rest,
        ) == (CommandView::Listen { port: 7331 }),
{
    reveal_strlit("listen");
    reveal_strlit("help");
    law_decimal_reads_back(port as nat);
    let ws = seq!["listen"@, decimal(port as nat)] + rest;
    assert(ws[0] == "listen"@ && ws[1] == decimal(port as nat));
    let vs = seq!["listen"@, word] + rest;
    assert(vs[0] == "listen"@ && vs[1] == word);
    assert("help"@.len() != "listen"@.len());
}

/// `chat` with the number of a peer, as it is written, is for that peer; without
/// a number of at most 128 bits it is for nobody.
pub proof fn law_chat(target: u128, rest: Seq<Seq<char>>, word: Seq<char>)
    ensures
        command_of(seq!["chat"@, decimal(target as nat)] + rest) == (CommandView::Chat { target }),
        command_of(seq!["chat"@]) == CommandView::ChatUsage,
        parsed_decimal(word) matches Some(n) ==> n <= u128::MAX ==> command_of(
            seq!["chat"@, word] + rest,
        ) == (CommandView::Chat { target: n as u128 }),
        parsed_decimal(word) is None || parsed_decimal(word)->0 > u128::MAX ==> command_of(
            seq!["chat"@, word] + rest,
        ) == CommandView::ChatUsage,
{
    reveal_strlit("chat");
    reveal_strlit("help");
    reveal_strlit("listen");
    law_decimal_reads_back(target as nat);
    let ws = seq!["chat"@, decimal(target as nat)] + rest;
    assert(ws[0] == "chat"@ && ws[1] == decimal(target as nat));
    let vs = seq!["chat"@, word] + rest;
    assert(vs[0] == "chat"@ && vs[1] == word);
    assert("chat"@[0] == 'c' && "help"@[0] == 'h');
    assert("chat"@.len() != "listen"@.len());
}

/// `connect` takes its address as it was typed; `help` and `quit` take nothing;
/// any other word is unknown, by its name.
pub proof fn law_other_commands(name: Seq<char>, addr: Seq<char>, rest: Seq<Seq<char>>)
    ensures
        command_of(seq!["connect"@, addr] + rest) == (CommandView::Connect { addr }),
        command_of(seq!["connect"@]) == CommandView::ConnectUsage,
        command_of(seq!["help"@] + rest) == CommandView::Help,
        command_of(seq!["quit"@] + rest) == CommandView::Quit,
        name != "help"@ && name != "listen"@ && name != "chat"@ && name != "connect"@ && name
            != "quit"@ ==> command_of(seq![name] + rest) == (CommandView::Unknown { name }),
{
    reveal_strlit("connect");
    reveal_strlit("quit");
    reveal_strlit("chat");
    reveal_strlit("help");
    reveal_strlit("listen");
    assert("connect"@.len() == 7 && "listen"@.len() == 6 && "quit"@.len() == 4);
    assert("quit"@[0] == 'q' && "help"@[0] == 'h' && "chat"@[0] == 'c');
    assert((seq!["connect"@, addr] + rest)[0] == "connect"@);
    assert((seq!["connect"@, addr] + rest)[1] == addr);
    assert((seq!["help"@] + rest)[0] == "help"@);
    assert((seq!["quit"@] + rest)[0] == "quit"@);
    assert((seq![name] + rest)[0] == name);
}

} // verus!
