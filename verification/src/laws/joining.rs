//! What `wpa_cli` is told on the way into a network.

use crate::blufi::wifi::{says_fail, RunView, Stage, WifiErrorView};
use crate::text;
use vstd::prelude::*;

verus! {

/// A value between double quotes.
pub open spec fn between_quotes(value: Seq<char>, inner: Seq<char>) -> bool {
    &&& value.len() == inner.len() + 2
    &&& value[0] == '"'
    &&& value.last() == '"'
    &&& value.subrange(1, value.len() - 1) == inner
}

/// A row of decimal digits that writes a number.
pub open spec fn writes(digits: Seq<char>, n: int) -> bool {
    &&& digits.len() > 0
    &&& forall|i: int| 0 <= i < digits.len() ==> '0' <= #[trigger] digits[i] <= '9'
    &&& text::digits_value(digits) == n
}

proof fn lemma_quoted(s: Seq<char>)
    ensures
        between_quotes("\""@ + s + "\""@, s),
{
    reveal_strlit("\"");
    let v = "\""@ + s + "\""@;
    assert(v.subrange(1, v.len() - 1) =~= s);
}

proof fn lemma_writes(n: nat)
    ensures
        writes(text::decimal(n), n as int),
{
    text::lemma_decimal_is_read(n);
}

/// The key of a network is set to its password in quotes, however long the password is; a network
/// is set to have no key exactly where there is no password, or an empty one.
pub proof fn law_key_is_the_password(v: RunView)
    requires
        v.stage == Stage::SetKey,
    ensures
        v.args().len() == 4,
        v.args()[0] == "set_network"@,
        writes(v.args()[1], v.id as int),
        ({
            let has_key = v.pwd is Some && v.pwd->0.len() > 0;
            &&& has_key ==> v.args()[2] == "psk"@ && between_quotes(v.args()[3], v.pwd->0)
            &&& !has_key ==> v.args()[2] == "key_mgmt"@ && v.args()[3] == "NONE"@
            &&& v.args()[2] == "key_mgmt"@ ==> !has_key
        }),
{
    reveal_strlit("psk");
    reveal_strlit("key_mgmt");
    lemma_writes(v.id as nat);
    if v.pwd is Some {
        lemma_quoted(v.pwd->0);
    }
}

/// The name of a network is set to the name that the app sent, in quotes, whatever it holds.
pub proof fn law_name_is_the_sent_one(v: RunView)
    requires
        v.stage == Stage::SetName,
    ensures
        v.args().len() == 4,
        v.args()[0] == "set_network"@,
        writes(v.args()[1], v.id as int),
        v.args()[2] == "ssid"@,
        between_quotes(v.args()[3], v.ssid),
{
    lemma_writes(v.id as nat);
    lemma_quoted(v.ssid);
}

/// The commands that concern no value of the network: looking it up, adding it, enabling it,
/// writing and reading the configuration, changing to it, and asking for the address. Those that
/// take a network take the one that is being joined.
pub proof fn law_commands_of_joining(v: RunView)
    ensures
        v.stage == Stage::Find ==> v.args() == seq!["list_networks"@],
        v.stage == Stage::Add ==> v.args() == seq!["add_network"@],
        v.stage == Stage::Enable ==> v.args().len() == 2 && v.args()[0] == "enable_network"@
            && writes(v.args()[1], v.id as int),
        v.stage == Stage::Save ==> v.args() == seq!["save_config"@],
        v.stage == Stage::Reload ==> v.args() == seq!["reconfigure"@],
        v.stage == Stage::FindAgain ==> v.args() == seq!["list_networks"@],
        v.stage == Stage::Select ==> v.args().len() == 2 && v.args()[0] == "select_network"@
            && writes(v.args()[1], v.id as int),
        v.stage == Stage::Poll ==> v.args() == seq!["status"@],
        v.stage == Stage::Dhcp || v.stage == Stage::Joined ==> v.args().len() == 0,
{
    lemma_writes(v.id as nat);
}

/// The network that has been found or added is named, given its key, enabled, saved, read again
/// and looked up, one after the other, as long as no command fails; name, password and number stay
/// what they are.
pub proof fn law_network_is_configured_in_order(v: RunView, out: Seq<char>, expired: bool)
    requires
        !text::holds(out, "FAIL"@),
        !text::same_letters(text::trimmed(out), "FAIL"@),
    ensures
        v.stage == Stage::SetName ==> v.stepped(Ok(out), expired) == Ok::<RunView, WifiErrorView>(
            RunView { stage: Stage::SetKey, ..v },
        ),
        v.stage == Stage::SetKey ==> v.stepped(Ok(out), expired) == Ok::<RunView, WifiErrorView>(
            RunView { stage: Stage::Enable, ..v },
        ),
        v.stage == Stage::Enable ==> v.stepped(Ok(out), expired) == Ok::<RunView, WifiErrorView>(
            RunView { stage: Stage::Save, ..v },
        ),
        v.stage == Stage::Save ==> v.stepped(Ok(out), expired) == Ok::<RunView, WifiErrorView>(
            RunView { stage: Stage::Reload, ..v },
        ),
        v.stage == Stage::Reload ==> v.stepped(Ok(out), expired) == Ok::<RunView, WifiErrorView>(
            RunView { stage: Stage::FindAgain, ..v },
        ),
        v.stage == Stage::Select ==> v.stepped(Ok(out), expired) == Ok::<RunView, WifiErrorView>(
            RunView { stage: Stage::Dhcp, ..v },
        ),
        v.stage == Stage::Dhcp ==> v.stepped(Ok(out), expired) == Ok::<RunView, WifiErrorView>(
            RunView { stage: Stage::Poll, ..v },
        ),
{
    assert(!says_fail(out));
}

/// A step that sets the network up and whose command fails, by its outcome or by what it prints,
/// ends the attempt.
pub proof fn law_failed_command_ends_joining(
    v: RunView,
    out: Result<Seq<char>, WifiErrorView>,
    expired: bool,
)
    requires
        v.stage == Stage::SetName || v.stage == Stage::SetKey || v.stage == Stage::Enable || v.stage
            == Stage::Save || v.stage == Stage::Reload || v.stage == Stage::Select,
        out is Err || text::holds(out->Ok_0, "FAIL"@),
    ensures
        v.stepped(out, expired) is Err,
        out is Err ==> v.stepped(out, expired)->Err_0 == out->Err_0,
{
}

} // verus!
