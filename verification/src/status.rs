//! Building the status payload that the bot renders into a channel message.
//!
//! The payload is a list of named fields: server name, address, map, player
//! count, optionally the concatenated player names, and the time of the
//! check. A failed query produces the same list with every descriptive
//! field set to "Unknown" while the address and the timestamp stay.

use vstd::prelude::*;
use vstd::string::*;

verus! {

/// What the library reads from a game server's query reply: its name, its
/// current map, and how many players are on it.
pub struct ServerInfo {
    pub name: String,
    pub map: String,
    pub players: u8,
}

/// Mathematical value of a [`ServerInfo`].
pub ghost struct ServerInfoVal {
    pub name: Seq<char>,
    pub map: Seq<char>,
    pub players: int,
}

impl View for ServerInfo {
    type V = ServerInfoVal;

    open spec fn view(&self) -> ServerInfoVal {
        ServerInfoVal { name: self.name@, map: self.map@, players: self.players as int }
    }
}

/// One field of the status payload: a title and a value.
pub struct StatusField {
    pub name: String,
    pub value: String,
}

/// Mathematical value of a [`StatusField`].
pub ghost struct StatusFieldVal {
    pub name: Seq<char>,
    pub value: Seq<char>,
}

impl View for StatusField {
    type V = StatusFieldVal;

    open spec fn view(&self) -> StatusFieldVal {
        StatusFieldVal { name: self.name@, value: self.value@ }
    }
}

impl DeepView for StatusField {
    type V = StatusFieldVal;

    open spec fn deep_view(&self) -> StatusFieldVal {
        self.view()
    }
}

/// The character of a single decimal digit.
pub open spec fn dec_digit(d: int) -> char {
    if d == 0 {
        '0'
    } else if d == 1 {
        '1'
    } else if d == 2 {
        '2'
    } else if d == 3 {
        '3'
    } else if d == 4 {
        '4'
    } else if d == 5 {
        '5'
    } else if d == 6 {
        '6'
    } else if d == 7 {
        '7'
    } else if d == 8 {
        '8'
    } else {
        '9'
    }
}

/// The decimal representation of `n`, most significant digit first, with
/// no leading zero except for `n == 0` itself.
pub open spec fn dec_rep(n: nat) -> Seq<char>
    decreases n,
{
    if n < 10 {
        seq![dec_digit(n as int)]
    } else {
        dec_rep(n / 10).push(dec_digit((n % 10) as int))
    }
}

fn digit_to_string(d: u64) -> (s: String)
    requires
        d < 10,
    ensures
        s@ == seq![dec_digit(d as int)],
{
    let t: &str = if d == 0 {
        "0"
    } else if d == 1 {
        "1"
    } else if d == 2 {
        "2"
    } else if d == 3 {
        "3"
    } else if d == 4 {
        "4"
    } else if d == 5 {
        "5"
    } else if d == 6 {
        "6"
    } else if d == 7 {
        "7"
    } else if d == 8 {
        "8"
    } else {
        "9"
    };
    proof {
        reveal_strlit("0");
        reveal_strlit("1");
        reveal_strlit("2");
        reveal_strlit("3");
        reveal_strlit("4");
        reveal_strlit("5");
        reveal_strlit("6");
        reveal_strlit("7");
        reveal_strlit("8");
        reveal_strlit("9");
        assert(t@ =~= seq![dec_digit(d as int)]);
    }
    String::from_str(t)
}

/// Render `n` in decimal.
pub fn u64_to_dec(n: u64) -> (s: String)
    ensures
        s@ == dec_rep(n as nat),
    decreases n,
{
    if n < 10 {
        digit_to_string(n)
    } else {
        let mut s = u64_to_dec(n / 10);
        let d = digit_to_string(n % 10);
        s.append(d.as_str());
        proof {
            assert(s@ =~= dec_rep(n as nat));
        }
        s
    }
}

/// The player names joined with `", "`.
pub open spec fn joined_names(names: Seq<Seq<char>>) -> Seq<char>
    decreases names.len(),
{
    if names.len() == 0 {
        Seq::empty()
    } else if names.len() == 1 {
        names[0]
    } else {
        joined_names(names.drop_last()) + ", "@ + names.last()
    }
}

/// Join the player names with `", "`.
pub fn join_names(names: &Vec<String>) -> (s: String)
    ensures
        s@ == joined_names(names.deep_view()),
{
    let mut s = String::new();
    let n = names.len();
    let mut i: usize = 0;
    proof {
        assert(names.deep_view().take(0) =~= Seq::<Seq<char>>::empty());
    }
    while i < n
        invariant
            i <= n,
            n == names.len(),
            s@ == joined_names(names.deep_view().take(i as int)),
        decreases n - i,
    {
        if i > 0 {
            s.append(", ");
        }
        s.append(names[i].as_str());
        proof {
            let full = names.deep_view();
            assert(full.take(i as int + 1).drop_last() =~= full.take(i as int));
            assert(full.take(i as int + 1).last() == full[i as int]);
            assert(s@ =~= joined_names(full.take(i as int + 1)));
        }
        i += 1;
    }
    proof {
        assert(names.deep_view().take(n as int) =~= names.deep_view());
    }
    s
}

/// Mathematical value of an optional query result.
pub open spec fn info_view(info: Option<ServerInfo>) -> Option<ServerInfoVal> {
    match info {
        Some(i) => Some(i@),
        None => None,
    }
}

/// The status payload for a check made at `updated_at`. A successful query
/// shows name, address, map and player count, the joined player names only
/// when any were fetched, and the timestamp; a failed query marks every
/// descriptive field "Unknown" but keeps the address and the timestamp.
pub open spec fn status_fields_spec(
    info: Option<ServerInfoVal>,
    players: Seq<Seq<char>>,
    address: Seq<char>,
    updated_at: Seq<char>,
) -> Seq<StatusFieldVal> {
    match info {
        Some(i) => {
            let base = seq![
                StatusFieldVal { name: "Server name"@, value: i.name },
                StatusFieldVal { name: "Server address"@, value: address },
                StatusFieldVal { name: "Map"@, value: i.map },
                StatusFieldVal { name: "Player count"@, value: dec_rep(i.players as nat) },
            ];
            let with_players = if players.len() == 0 {
                base
            } else {
                base.push(StatusFieldVal { name: "Players"@, value: joined_names(players) })
            };
            with_players.push(StatusFieldVal { name: "Updated at"@, value: updated_at })
        },
        None => seq![
            StatusFieldVal { name: "Server name"@, value: "Unknown"@ },
            StatusFieldVal { name: "Server address"@, value: address },
            StatusFieldVal { name: "Map"@, value: "Unknown"@ },
            StatusFieldVal { name: "Player count"@, value: "Unknown"@ },
            StatusFieldVal { name: "Updated at"@, value: updated_at },
        ],
    }
}

/// Build the status payload for one subscription check.
pub fn build_status_fields(
    info: &Option<ServerInfo>,
    players: &Vec<String>,
    address: &str,
    updated_at: &str,
) -> (r: Vec<StatusField>)
    ensures
        r.deep_view() == status_fields_spec(
            info_view(*info),
            players.deep_view(),
            address@,
            updated_at@,
        ),
{
    let mut r: Vec<StatusField> = Vec::new();
    match info {
        Some(i) => {
            r.push(
                StatusField {
                    name: String::from_str("Server name"),
                    value: i.name.clone(),
                },
            );
            r.push(
                StatusField {
                    name: String::from_str("Server address"),
                    value: String::from_str(address),
                },
            );
            r.push(StatusField { name: String::from_str("Map"), value: i.map.clone() });
            r.push(
                StatusField {
                    name: String::from_str("Player count"),
                    value: u64_to_dec(i.players as u64),
                },
            );
            if !players.is_empty() {
                r.push(
                    StatusField { name: String::from_str("Players"), value: join_names(players) },
                );
            }
            r.push(
                StatusField {
                    name: String::from_str("Updated at"),
                    value: String::from_str(updated_at),
                },
            );
        },
        None => {
            r.push(
                StatusField {
                    name: String::from_str("Server name"),
                    value: String::from_str("Unknown"),
                },
            );
            r.push(
                StatusField {
                    name: String::from_str("Server address"),
                    value: String::from_str(address),
                },
            );
            r.push(
                StatusField { name: String::from_str("Map"), value: String::from_str("Unknown") },
            );
            r.push(
                StatusField {
                    name: String::from_str("Player count"),
                    value: String::from_str("Unknown"),
                },
            );
            r.push(
                StatusField {
                    name: String::from_str("Updated at"),
                    value: String::from_str(updated_at),
                },
            );
        },
    }
    proof {
        assert(r.deep_view() =~= status_fields_spec(
            info_view(*info),
            players.deep_view(),
            address@,
            updated_at@,
        ));
    }
    r
}

/// Relies on chrono's `Local::now` and `DateTime::format` for the
/// wall-clock timestamp, rendered as `%Y-%m-%d %H:%M:%S`; the result
/// depends on the clock, so nothing is claimed about it.
#[verifier::external_body]
fn current_timestamp() -> (r: String) {
    chrono::Local::now().format("%Y-%m-%d %H:%M:%S").to_string()
}

/// Build the status payload for one subscription check, stamped with the
/// wall clock at the time of the call.
pub fn render_status(info: &Option<ServerInfo>, players: &Vec<String>, address: &str) -> (r: Vec<
    StatusField,
>)
    ensures
        exists|ts: Seq<char>|
            r.deep_view() == #[trigger] status_fields_spec(
                info_view(*info),
                players.deep_view(),
                address@,
                ts,
            ),
{
    let updated_at = current_timestamp();
    build_status_fields(info, players, address, updated_at.as_str())
}

} // verus!
