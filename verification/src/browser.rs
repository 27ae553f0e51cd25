//! The browser that a guest drives through its sidecar.

use crate::encoding;
use crate::encoding::fresh_uuid;
use crate::text;
use crate::text::{concat, decimal_text, same_text, to_chars};
use vstd::prelude::*;

verus! {

/// The port of the browser bridge, where nothing else listens there.
pub const DEFAULT_PINCHTAB_PORT: u16 = 9867;

/// How the browser bridge is reached.
#[derive(Debug, PartialEq, Eq)]
pub struct BrowserBridge {
    pub port: u16,
    pub token: String,
}

/// What the browser tool has to know.
#[derive(Debug, PartialEq, Eq)]
pub struct BrowserToolConfig {
    pub pinchtab_base_url: String,
    pub bridge_token: Option<String>,
}

/// The model of a [`BrowserToolConfig`].
pub struct BrowserModel {
    pub pinchtab_base_url: Seq<char>,
    pub bridge_token: Option<Seq<char>>,
}

impl DeepView for BrowserToolConfig {
    type V = BrowserModel;

    open spec fn deep_view(&self) -> BrowserModel {
        BrowserModel {
            pinchtab_base_url: self.pinchtab_base_url@,
            bridge_token: self.bridge_token.deep_view(),
        }
    }
}

/// A text without hyphens.
pub open spec fn without_hyphens(s: Seq<char>) -> Seq<char>
    decreases s.len(),
{
    if s.len() == 0 {
        s
    } else if s.last() == '-' {
        without_hyphens(s.drop_last())
    } else {
        without_hyphens(s.drop_last()).push(s.last())
    }
}

/// The token that an identity makes.
pub fn bridge_token_of(identity: &str) -> (r: String)
    ensures
        r@ == without_hyphens(identity@),
{
    let chars = to_chars(identity);
    let mut token = String::new();
    let mut i: usize = 0;
    proof {
        assert(identity@.take(0) =~= Seq::empty());
    }
    while i < chars.len()
        invariant
            i <= chars.len(),
            chars@ == identity@,
            token@ == without_hyphens(identity@.take(i as int)),
        decreases chars.len() - i,
    {
        proof {
            assert(identity@.take(i as int + 1).drop_last() =~= identity@.take(i as int));
        }
        if chars[i] != '-' {
            token.push(chars[i]);
        }
        i += 1;
    }
    proof {
        assert(identity@.take(i as int) =~= identity@);
    }
    token
}

proof fn lemma_hex_prefix(identity: Seq<char>, n: int)
    requires
        encoding::is_uuid_text(identity),
        0 <= n <= 36,
    ensures
        without_hyphens(identity.take(n)).len() == n - if n <= 8 {
            0int
        } else if n <= 13 {
            1
        } else if n <= 18 {
            2
        } else if n <= 23 {
            3
        } else {
            4
        },
        forall|i: int|
            0 <= i < without_hyphens(identity.take(n)).len() ==> encoding::is_lower_hex(
                #[trigger] without_hyphens(identity.take(n))[i],
            ),
    decreases n,
{
    if n > 0 {
        lemma_hex_prefix(identity, n - 1);
        assert(identity.take(n).drop_last() =~= identity.take(n - 1));
        assert(identity.take(n).last() == identity[n - 1]);
    }
}

/// A fresh token: 32 hexadecimal digits. Which ones is left to chance.
pub fn generate_bridge_token() -> (r: String)
    ensures
        r@.len() == 32,
        forall|i: int| 0 <= i < r@.len() ==> encoding::is_lower_hex(#[trigger] r@[i]),
{
    let identity = fresh_uuid();
    proof {
        lemma_hex_prefix(identity@, 36);
        assert(identity@.take(36) =~= identity@);
    }
    bridge_token_of(identity.as_str())
}

/// Where the bridge is reached.
pub open spec fn bridge_url(port: u16) -> Seq<char> {
    "http://127.0.0.1:"@ + text::decimal(port as nat)
}

/// What the sidecar's environment holds for a browser.
pub open spec fn browser_env(port: u16, token: Seq<char>) -> Seq<Seq<char>> {
    seq![
        "BROWSER_ENABLED=true"@,
        "BRIDGE_PORT="@ + text::decimal(port as nat),
        "BRIDGE_BIND=127.0.0.1"@,
        "BRIDGE_TOKEN="@ + token,
        "BRIDGE_HEADLESS=true"@,
        "CHROME_BINARY=/usr/bin/chromium"@,
        "CHROME_FLAGS=--no-sandbox"@,
    ]
}

/// The sidecar's environment for a browser, and where the bridge is reached.
pub fn build_browser_env(port: u16, token: &str) -> (r: (Vec<String>, String))
    ensures
        r.0.deep_view() == browser_env(port, token@),
        r.1@ == bridge_url(port),
{
    let number = decimal_text(port as u64);
    let env = vec![
        "BROWSER_ENABLED=true".to_owned(),
        concat("BRIDGE_PORT=", number.as_str()),
        "BRIDGE_BIND=127.0.0.1".to_owned(),
        concat("BRIDGE_TOKEN=", token),
        "BRIDGE_HEADLESS=true".to_owned(),
        "CHROME_BINARY=/usr/bin/chromium".to_owned(),
        "CHROME_FLAGS=--no-sandbox".to_owned(),
    ];
    proof {
        assert(env.deep_view() =~= browser_env(port, token@));
    }
    (env, concat("http://127.0.0.1:", number.as_str()))
}

/// What the shell tool may do.
#[derive(Debug, PartialEq, Eq, Default)]
pub struct ShellConfig {
    pub allow: Option<Vec<String>>,
    pub deny: Option<Vec<String>>,
    pub replace_defaults: Option<bool>,
    pub allow_operators: Option<bool>,
    pub env_keys: Option<Vec<String>>,
}

/// The commands with that one among them.
pub open spec fn with_command(commands: Seq<Seq<char>>, command: Seq<char>) -> Seq<Seq<char>> {
    if commands.contains(command) {
        commands
    } else {
        commands.push(command)
    }
}

/// The commands with those that driving a browser takes.
pub open spec fn with_browser_commands(commands: Seq<Seq<char>>) -> Seq<Seq<char>> {
    with_command(with_command(with_command(commands, "curl"@), "jq"@), "sleep"@)
}

fn allow_command(commands: &mut Vec<String>, command: &str)
    ensures
        final(commands).deep_view() == with_command(old(commands).deep_view(), command@),
{
    let ghost before = commands.deep_view();
    let mut i: usize = 0;
    while i < commands.len()
        invariant
            i <= commands.len(),
            before == commands.deep_view(),
            *commands == *old(commands),
            forall|k: int| 0 <= k < i ==> #[trigger] before[k] != command@,
        decreases commands.len() - i,
    {
        assert(before[i as int] == commands@[i as int]@);
        if same_text(commands[i].as_str(), command) {
            assert(before.contains(command@));
            return ;
        }
        i += 1;
    }
    commands.push(command.to_owned());
    proof {
        assert(commands.deep_view() =~= before.push(command@));
    }
}

/// Lets the shell tool drive a browser. What it was already allowed or denied stands.
pub fn apply_browser_shell_overlay(config: &mut ShellConfig)
    ensures
        final(config).allow.deep_view() == Some(
            with_browser_commands(
                match old(config).allow.deep_view() {
                    Some(commands) => commands,
                    None => Seq::empty(),
                },
            ),
        ),
        final(config).allow_operators == Some(true),
        final(config).deny == old(config).deny,
        final(config).replace_defaults == old(config).replace_defaults,
        final(config).env_keys == old(config).env_keys,
{
    let mut commands: Vec<String> = match config.allow.take() {
        Some(commands) => commands,
        None => Vec::new(),
    };
    proof {
        if old(config).allow is None {
            assert(commands.deep_view() =~= Seq::empty());
        }
    }
    allow_command(&mut commands, "curl");
    allow_command(&mut commands, "jq");
    allow_command(&mut commands, "sleep");
    config.allow = Some(commands);
    config.allow_operators = Some(true);
}

/// Every command that was allowed still is, no command comes in twice, and to let the
/// shell drive a browser again changes nothing.
pub proof fn law_browser_commands_are_added_once(commands: Seq<Seq<char>>)
    ensures
        forall|command: Seq<char>|
            commands.contains(command) ==> with_browser_commands(commands).contains(command),
        with_browser_commands(commands).contains("curl"@),
        with_browser_commands(commands).contains("jq"@),
        with_browser_commands(commands).contains("sleep"@),
        commands.no_duplicates() ==> with_browser_commands(commands).no_duplicates(),
        with_browser_commands(with_browser_commands(commands)) == with_browser_commands(commands),
{
    let one = with_command(commands, "curl"@);
    let two = with_command(one, "jq"@);
    let three = with_command(two, "sleep"@);
    lemma_with_command(commands, "curl"@);
    lemma_with_command(one, "jq"@);
    lemma_with_command(two, "sleep"@);
    assert(two.contains("curl"@));
    assert(three.contains("curl"@));
    assert(three.contains("jq"@));
}

proof fn lemma_with_command(commands: Seq<Seq<char>>, command: Seq<char>)
    ensures
        with_command(commands, command).contains(command),
        forall|other: Seq<char>|
            commands.contains(other) ==> with_command(commands, command).contains(other),
        commands.no_duplicates() ==> with_command(commands, command).no_duplicates(),
{
    let after = with_command(commands, command);
    if !commands.contains(command) {
        assert(after[commands.len() as int] == command);
        assert forall|other: Seq<char>| commands.contains(other) implies after.contains(other) by {
            let i = choose|i: int| 0 <= i < commands.len() && commands[i] == other;
            assert(after[i] == other);
        }
    }
}

/// A browser's bridge listens on the port that it is told, only for the host, and takes
/// the token that it is told; the guest reaches it at that port.
pub proof fn law_bridge_listens_where_it_is_reached(
    port: u16,
    token: &str,
    r: (Vec<String>, String),
)
    requires
        call_ensures(build_browser_env, (port, token), r),
    ensures
        r.0@.len() == 7,
        r.0@[0]@ == "BROWSER_ENABLED=true"@,
        r.0@[1]@ == "BRIDGE_PORT="@ + text::decimal(port as nat),
        r.0@[2]@ == "BRIDGE_BIND=127.0.0.1"@,
        r.0@[3]@ == "BRIDGE_TOKEN="@ + token@,
        r.0@[4]@ == "BRIDGE_HEADLESS=true"@,
        r.0@[5]@ == "CHROME_BINARY=/usr/bin/chromium"@,
        r.0@[6]@ == "CHROME_FLAGS=--no-sandbox"@,
        r.1@ == "http://127.0.0.1:"@ + text::decimal(port as nat),
{
    text::lemma_list(r.0);
}

/// A shell that may drive a browser may use the commands that this takes, and every
/// command that it could use before; what it was denied stays denied.
pub proof fn law_browser_shell_keeps_what_it_had(config: &mut ShellConfig, command: Seq<char>)
    requires
        call_ensures(apply_browser_shell_overlay, (config,), ()),
    ensures
        final(config).allow is Some,
        final(config).allow->0.deep_view().contains("curl"@),
        final(config).allow->0.deep_view().contains("jq"@),
        final(config).allow->0.deep_view().contains("sleep"@),
        old(config).allow matches Some(commands) ==> (commands.deep_view().contains(command)
            ==> final(config).allow->0.deep_view().contains(command)),
        final(config).allow->0.deep_view().contains(command) ==> command == "curl"@ || command
            == "jq"@ || command == "sleep"@ || (old(config).allow matches Some(commands)
            && commands.deep_view().contains(command)),
        final(config).allow_operators == Some(true),
        final(config).deny == old(config).deny,
        final(config).replace_defaults == old(config).replace_defaults,
        final(config).env_keys == old(config).env_keys,
{
    let before = match config.allow.deep_view() {
        Some(commands) => commands,
        None => Seq::empty(),
    };
    law_browser_commands_are_added_once(before);
    let one = with_command(before, "curl"@);
    let two = with_command(one, "jq"@);
    lemma_command_came_in(before, "curl"@, command);
    lemma_command_came_in(one, "jq"@, command);
    lemma_command_came_in(two, "sleep"@, command);
}

proof fn lemma_command_came_in(commands: Seq<Seq<char>>, added: Seq<char>, command: Seq<char>)
    ensures
        with_command(commands, added).contains(command) ==> command == added || commands.contains(
            command,
        ),
{
    let all = with_command(commands, added);
    if all.contains(command) {
        let i = choose|i: int| 0 <= i < all.len() && all[i] == command;
        if i < commands.len() {
            assert(commands[i] == command);
        }
    }
}

/// A token is its identity without the hyphens: every other character stands in it, and
/// no hyphen does.
pub proof fn law_token_has_no_hyphens(identity: &str, token: String)
    requires
        call_ensures(bridge_token_of, (identity,), token),
    ensures
        !token@.contains('-'),
        forall|c: char| c != '-' ==> (#[trigger] token@.contains(c) <==> identity@.contains(c)),
        token@.len() <= identity@.len(),
        !identity@.contains('-') ==> token@ == identity@,
{
    lemma_without_hyphens(identity@);
}

proof fn lemma_without_hyphens(s: Seq<char>)
    ensures
        !without_hyphens(s).contains('-'),
        forall|c: char| c != '-' ==> (#[trigger] without_hyphens(s).contains(c) <==> s.contains(c)),
        without_hyphens(s).len() <= s.len(),
        !s.contains('-') ==> without_hyphens(s) == s,
    decreases s.len(),
{
    if s.len() > 0 {
        let rest = s.drop_last();
        lemma_without_hyphens(rest);
        assert(s =~= rest.push(s.last()));
        assert(s[s.len() - 1] == s.last());
        assert forall|c: char| s.contains(c) <==> rest.contains(c) || c == s.last() by {
            if s.contains(c) {
                let i = choose|i: int| 0 <= i < s.len() && s[i] == c;
                if i < rest.len() {
                    assert(rest[i] == c);
                }
            }
            if rest.contains(c) {
                let i = choose|i: int| 0 <= i < rest.len() && rest[i] == c;
                assert(s[i] == c);
            }
        }
        if s.last() != '-' {
            let kept = without_hyphens(rest);
            let all = kept.push(s.last());
            assert forall|c: char| all.contains(c) <==> kept.contains(c) || c == s.last() by {
                if all.contains(c) {
                    let i = choose|i: int| 0 <= i < all.len() && all[i] == c;
                    if i < kept.len() {
                        assert(kept[i] == c);
                    }
                }
                if kept.contains(c) {
                    let i = choose|i: int| 0 <= i < kept.len() && kept[i] == c;
                    assert(all[i] == c);
                }
                assert(all[kept.len() as int] == s.last());
            }
        }
    }
}

} // verus!
