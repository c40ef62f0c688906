//! What holds of whole sessions: which command goes out for which request, what is
//! shown of the reply, and how a session ends.
use crate::cli;
use crate::configure;
use crate::fields;
use crate::number;
use crate::output;
use crate::output::BinOutput;
use crate::proto;
use crate::rdwr;
use crate::registers;
use crate::report;
use crate::run;
use crate::session;
use crate::session::Event;
use crate::text;
use crate::transact;
use vstd::prelude::*;
use vstd::string::*;

verus! {

/// What a command line carries between `prefix` and its `*`.
pub open spec fn field_text(command: Seq<char>, prefix: Seq<char>) -> Option<Seq<char>> {
    match text::strip_prefix(command, prefix) {
        Some(rest) => Some(text::before(rest, '*')),
        None => None,
    }
}

/// Digits hold no delimiter.
proof fn lemma_digits_are_plain(d: Seq<char>)
    requires
        number::all_digits(d, 10),
    ensures
        !d.contains('*'),
        !d.contains(','),
{
    assert forall|i: int| 0 <= i < d.len() implies d[i] != '*' && d[i] != ',' by {
        assert(number::digit_value(d[i], 10) is Some);
    }
}

/// A command line carries the field that its payload ends with.
proof fn lemma_field_text(before: Seq<char>, d: Seq<char>)
    requires
        !d.contains('*'),
    ensures
        field_text(proto::command_line(before + d), seq!['$'] + before) == Some(d),
{
    let c = proto::command_line(before + d);
    let prefix = seq!['$'] + before;
    let n = prefix.len() as int;
    let rest = c.skip(n);
    assert(prefix =~= c.subrange(0, n));
    assert(prefix.is_prefix_of(c));
    let k = d.len() as int;
    assert(rest[k] == '*');
    assert forall|j: int| 0 <= j < k implies rest[j] != '*' by {
        assert(rest[j] == d[j]);
        assert(d.contains(d[j]));
    }
    text::lemma_find_at(rest, '*', k);
    assert(rest.take(k) =~= d);
}

/// Whether a turn sends a well-formed command up to five times and waits for such a
/// reply, with the hint at the connection's baud rate where none comes.
pub open spec fn asks(
    turn: session::TurnView,
    command: Seq<char>,
    accept: transact::AcceptView,
    baud: u32,
) -> bool {
    &&& turn.output.len() == 0
    &&& session::sends_command(turn.action, command, 5, accept)
    &&& turn.action->missing == "no usable reply from device — is it actually at "@
        + number::decimal(baud as nat)
        + " baud? (VN-100 factory default is 115200; use --baud to match, or the `baud` command to change it)"@
}

// ---------------------------------------------------------------------------
// The baud rate
// ---------------------------------------------------------------------------
/// Whether a first turn writes `rate` to register 5.
pub open spec fn writes_baud(turn: session::TurnView, rate: u32, baud: u32) -> bool {
    let command = turn.action->Send_command;
    &&& asks(turn, command, transact::AcceptView::Prefix("$VNWRG,05,"@), baud)
    &&& field_text(command, "$VNWRG,05,"@) matches Some(d) && number::all_digits(d, 10)
        && number::parse_number(d, 10, u32::MAX as int) == Some(rate as int)
}

/// The baud command, of either tool, writes the requested rate to register 5 first.
pub proof fn law_baud_sends_the_rate(baud: u32, rate: u32, persist: bool)
    ensures
        run::configuring_started(baud, rdwr::CommandView::SetBaud { baud: rate, persist })
            == run::started(baud, cli::CommandView::SetBaud { baud: rate, persist }),
        writes_baud(
            run::started(baud, cli::CommandView::SetBaud { baud: rate, persist }).1,
            rate,
            baud,
        ),
{
    let d = number::decimal(rate as nat);
    number::lemma_decimal_digits(rate as nat);
    number::law_parse_decimal(rate as nat, u32::MAX as int);
    lemma_digits_are_plain(d);
    reveal_strlit("VNWRG,05,");
    reveal_strlit("$VNWRG,05,");
    assert(seq!['$'] + "VNWRG,05,"@ =~= "$VNWRG,05,"@);
    lemma_field_text("VNWRG,05,"@, d);
    proto::law_built_command_verifies("VNWRG,05,"@ + d);
}

/// Once the device has acknowledged the rate that was sent to it, the connection is
/// switched to that same rate, and only then is the device asked again.
#[verifier::rlimit(80)]
pub proof fn law_baud_switches_to_the_rate_sent(
    baud: u32,
    rate: u32,
    persist: bool,
    ack: Event,
    switched: Event,
)
    requires
        ack is Replied,
        ack->Replied_0 is Ok,
        switched is Switched,
    ensures
        ({
            let (s1, t1) = run::started(baud, cli::CommandView::SetBaud { baud: rate, persist });
            let (s2, t2) = run::stepped(baud, s1, ack);
            let (s3, t3) = run::stepped(baud, s2, switched);
            &&& t2.action is SwitchBaud
            &&& writes_baud(t1, t2.action->SwitchBaud_baud, baud)
            &&& t2.action->SwitchBaud_baud == rate
            &&& t2.output == seq![
                session::rx(ack->Replied_0->Ok_0@),
                session::said(
                    "Device acknowledged baud change to "@ + number::decimal(rate as nat) + "."@,
                ),
            ]
            &&& switched->Switched_0 is Ok ==> {
                &&& session::sends_command(
                    t3.action,
                    proto::command_line("VNRRG,07"@),
                    5,
                    transact::AcceptView::Rate,
                )
                &&& t3.action->missing
                    == "device did not respond at the new baud (a power cycle reverts to the flash baud)"@
                &&& t3.output == seq![
                    session::said("Verifying at "@ + number::decimal(rate as nat) + " baud..."@),
                ]
                &&& s3 == (run::StateView::BaudVerify { baud: rate, persist })
            }
            &&& switched->Switched_0 matches Err(t) ==> t3.output.len() == 0 && t3.action
                == session::ActionView::Done(Err(t@))
        }),
{
    let (s1, t1) = run::started(baud, cli::CommandView::SetBaud { baud: rate, persist });
    let (s2, t2) = run::stepped(baud, s1, ack);
    let (s3, t3) = run::stepped(baud, s2, switched);
    law_baud_sends_the_rate(baud, rate, persist);
    proto::law_built_command_verifies("VNRRG,07"@);
    assert(t2.output =~= seq![t2.output[0], t2.output[1]]);
    if switched->Switched_0 is Ok {
        assert(t3.output =~= seq![t3.output[0]]);
    }
}

/// Two different rates are asked for by two different commands.
pub proof fn law_different_rates_differ(baud: u32, a: u32, b: u32)
    requires
        a != b,
    ensures
        run::started(baud, cli::CommandView::SetBaud { baud: a, persist: false }).1.action
            != run::started(baud, cli::CommandView::SetBaud { baud: b, persist: false }).1.action,
{
    law_baud_sends_the_rate(baud, a, false);
    law_baud_sends_the_rate(baud, b, false);
}

/// A device that answers at its new rate is reported with that rate; the settings
/// are then saved where that was asked for, and the rate is named as the one to boot
/// at; else the note says how to save it.
#[verifier::rlimit(80)]
pub proof fn law_verified_baud_is_named(baud: u32, rate: u32, persist: bool, e: Event, saved: Event)
    requires
        e is Replied,
        e->Replied_0 is Ok,
        saved is Replied,
        saved->Replied_0 is Ok,
    ensures
        ({
            let reply = e->Replied_0->Ok_0@;
            let n = number::decimal(rate as nat);
            let (s1, t1) = run::stepped(baud, run::StateView::BaudVerify { baud: rate, persist }, e);
            let (s2, t2) = run::stepped(baud, s1, saved);
            &&& t1.output.len() == if persist {
                2nat
            } else {
                3
            }
            &&& t1.output[0] == session::rx(reply)
            &&& t1.output[1] == session::said(
                "Verified — device is at "@ + n + " baud (async rate "@ + number::decimal(
                    proto::reg07_value(reply)->0 as nat,
                ) + " Hz)."@,
            )
            &&& !persist ==> t1.action == session::ActionView::Done(Ok(())) && t1.output[2]
                == session::said(
                "(Volatile — the device holds this across host reconnects, but a power cycle or `reset`/`factory-reset` reverts it to the flash baud. Re-run with `baud "@
                    + n + " --persist` to make it permanent.)"@,
            )
            &&& persist ==> {
                &&& session::sends_command(
                    t1.action,
                    proto::command_line("VNWNV"@),
                    5,
                    transact::AcceptView::Prefix("$VNWNV"@),
                )
                &&& t1.action->missing == "no $VNWNV confirmation at the new baud"@
                &&& t2.action == session::ActionView::Done(Ok(()))
                &&& t2.output == seq![
                    session::rx(saved->Replied_0->Ok_0@),
                    session::said(
                        "Baud saved to flash; the device will boot at "@ + n + " from now on."@,
                    ),
                ]
            }
        }),
{
    proto::law_built_command_verifies("VNWNV"@);
    let (s1, t1) = run::stepped(baud, run::StateView::BaudVerify { baud: rate, persist }, e);
    let (s2, t2) = run::stepped(baud, s1, saved);
    if persist {
        assert(t2.output =~= seq![t2.output[0], t2.output[1]]);
    }
}

// ---------------------------------------------------------------------------
// Registers
// ---------------------------------------------------------------------------
/// `rrg`, of either tool, reads the requested register: what it sends between
/// `$VNRRG,` and `*` is at least two digits that are the number of the register.
pub proof fn law_rrg_reads_the_register(baud: u32, id: u8)
    ensures
        run::configuring_started(baud, rdwr::CommandView::Rrg { id }) == run::started(
            baud,
            cli::CommandView::Rrg { id },
        ),
        ({
            let turn = run::started(baud, cli::CommandView::Rrg { id }).1;
            let command = turn.action->Send_command;
            &&& asks(turn, command, transact::AcceptView::Prefix("$VNRRG,"@), baud)
            &&& field_text(command, "$VNRRG,"@) matches Some(d) && d.len() >= 2
                && number::all_digits(d, 10) && number::parse_number(d, 10, 255) == Some(id as int)
        }),
{
    let d = number::decimal2(id as nat);
    number::law_parse_decimal2(id as nat, 255);
    lemma_digits_are_plain(d);
    reveal_strlit("VNRRG,");
    reveal_strlit("$VNRRG,");
    assert(seq!['$'] + "VNRRG,"@ =~= "$VNRRG,"@);
    lemma_field_text("VNRRG,"@, d);
    proto::law_built_command_verifies("VNRRG,"@ + d);
}

/// Two different registers are read by two different commands.
pub proof fn law_different_registers_differ(baud: u32, a: u8, b: u8)
    requires
        a != b,
    ensures
        run::started(baud, cli::CommandView::Rrg { id: a }).1.action != run::started(
            baud,
            cli::CommandView::Rrg { id: b },
        ).1.action,
{
    law_rrg_reads_the_register(baud, a);
    law_rrg_reads_the_register(baud, b);
}

/// `wrg`, of either tool, writes the requested values to the requested register:
/// between `$VNWRG,` and `*` stand, between commas, at least two digits that are the
/// number of the register, and then each value as it was given.
#[verifier::rlimit(80)]
pub proof fn law_wrg_writes_the_values(baud: u32, id: u8, params: Seq<Seq<char>>)
    requires
        params.len() > 0,
        forall|i: int| 0 <= i < params.len() ==> session::is_field_text(#[trigger] params[i]),
    ensures
        run::configuring_started(baud, rdwr::CommandView::Wrg { id, params }) == run::started(
            baud,
            cli::CommandView::Wrg { id, params },
        ),
        ({
            let turn = run::started(baud, cli::CommandView::Wrg { id, params }).1;
            let command = turn.action->Send_command;
            &&& asks(turn, command, transact::AcceptView::Prefix("$VNWRG,"@), baud)
            &&& field_text(command, "$VNWRG,"@) is Some
            &&& ({
                let parts = text::split(field_text(command, "$VNWRG,"@)->0, ',');
                &&& parts.skip(1) == params
                &&& parts[0].len() >= 2
                &&& number::all_digits(parts[0], 10)
                &&& number::parse_number(parts[0], 10, 255) == Some(id as int)
            })
        }),
{
    let d = number::decimal2(id as nat);
    let none = Seq::<char>::empty();
    let values = text::join(params, ","@);
    let body = d + ","@ + values;
    reveal_strlit(",");
    reveal_strlit("VNWRG,");
    reveal_strlit("$VNWRG,");
    number::law_parse_decimal2(id as nat, 255);
    lemma_digits_are_plain(d);
    lemma_joined_is_plain(params);
    assert(!body.contains('*')) by {
        if body.contains('*') {
            let i = choose|i: int| 0 <= i < body.len() && body[i] == '*';
            if i < d.len() {
                assert(d.contains(d[i]));
            } else if i > d.len() {
                assert(values.contains(values[i - d.len() - 1]));
            }
        }
    }
    assert(seq!['$'] + "VNWRG,"@ =~= "$VNWRG,"@);
    lemma_field_text("VNWRG,"@, body);
    assert("VNWRG,"@ + d + ","@ + values =~= "VNWRG,"@ + body);
    proto::law_built_command_verifies("VNWRG,"@ + body);
    assert(","@ =~= seq![',']);
    assert(seq![','] + none =~= ","@);
    assert forall|i: int| 0 <= i < params.len() implies !(#[trigger] params[i]).contains(',') by {
        assert(session::is_field_text(params[i]));
    }
    text::lemma_split_joined(params, ',', none);
    let padded = |p: Seq<char>| none + p;
    assert forall|i: int| 0 <= i < params.skip(1).len() implies none + params.skip(1)[i]
        == params.skip(1)[i] by {
        assert(none + params.skip(1)[i] =~= params.skip(1)[i]);
    }
    assert(seq![params[0]] + params.skip(1).map_values(padded) =~= params);
    text::lemma_split_front(d, values, ',');
    let parts = text::split(body, ',');
    assert(parts =~= seq![d] + params);
    assert(parts.skip(1) =~= params);
}

/// Whatever the values are, they go out as they were given, with a comma before
/// each.
pub proof fn law_wrg_sends_the_values_joined(baud: u32, id: u8, params: Seq<Seq<char>>)
    requires
        params.len() > 0,
    ensures
        ({
            let turn = run::started(baud, cli::CommandView::Wrg { id, params }).1;
            let command = turn.action->Send_command;
            let values = text::join(params, ","@);
            let n = command.len() - 5;
            &&& asks(turn, command, transact::AcceptView::Prefix("$VNWRG,"@), baud)
            &&& "$VNWRG,"@.is_prefix_of(command)
            &&& n - values.len() >= 10
            &&& command.subrange(n - values.len(), n) == values
            &&& command[n - values.len() - 1] == ','
            &&& number::parse_number(command.subrange(7, n - values.len() - 1), 10, 255) == Some(
                id as int,
            )
        }),
{
    let d = number::decimal2(id as nat);
    let values = text::join(params, ","@);
    let turn = run::started(baud, cli::CommandView::Wrg { id, params }).1;
    let command = turn.action->Send_command;
    let n = command.len() - 5;
    reveal_strlit(",");
    reveal_strlit("VNWRG,");
    reveal_strlit("$VNWRG,");
    number::law_parse_decimal2(id as nat, 255);
    proto::law_built_command_verifies(run::write_payload(id, params));
    assert(number::hex2(proto::checksum_of(run::write_payload(id, params))).len() == 2);
    assert("$VNWRG,"@ =~= command.subrange(0, 7));
    assert(command.subrange(n - values.len(), n) =~= values);
    assert(command.subrange(7, n - values.len() - 1) =~= d);
}

/// Values without a `*` have none between commas either.
proof fn lemma_joined_is_plain(params: Seq<Seq<char>>)
    requires
        forall|i: int| 0 <= i < params.len() ==> session::is_field_text(#[trigger] params[i]),
    ensures
        !text::join(params, ","@).contains('*'),
    decreases params.len(),
{
    reveal_strlit(",");
    let all = text::join(params, ","@);
    if params.len() == 1 {
        assert(session::is_field_text(params[0]));
    } else if params.len() > 1 {
        let most = params.drop_last();
        assert forall|i: int| 0 <= i < most.len() implies session::is_field_text(
            #[trigger] most[i],
        ) by {
            assert(session::is_field_text(params[i]));
        }
        lemma_joined_is_plain(most);
        let head = text::join(most, ","@);
        let last = params.last();
        assert(session::is_field_text(params[params.len() - 1]));
        if all.contains('*') {
            let i = choose|i: int| 0 <= i < all.len() && all[i] == '*';
            if i < head.len() {
                assert(head.contains(head[i]));
            } else if i > head.len() {
                assert(last.contains(last[i - head.len() - 1]));
            }
        }
    }
}

/// Every request goes out as the command it names: a rate or a preset is written as
/// requested, a register is read before it is changed, a reboot is asked for by its
/// own command, and the passive bench measures as long as it was asked to.
#[verifier::rlimit(80)]
pub proof fn law_commands_send_what_they_name(baud: u32, c: cli::CommandView)
    ensures
        ({
            let (s, turn) = run::started(baud, c);
            match c {
                cli::CommandView::Help => s is Finished && turn.output.len() == 0 && turn.action
                    == session::ActionView::Done(Ok(())),
                cli::CommandView::Version => s is Finished && turn.output.len() == 0 && turn.action
                    == session::ActionView::Done(Ok(())),
                cli::CommandView::GetAscii => asks(
                    turn,
                    proto::command_line("VNRRG,06"@),
                    transact::AcceptView::Preset,
                    baud,
                ),
                cli::CommandView::SetAscii { preset, persist } => asks(
                    turn,
                    turn.action->Send_command,
                    transact::AcceptView::Preset,
                    baud,
                ) && session::writes_preset(
                    turn.action,
                    preset as int,
                    5,
                    transact::AcceptView::Preset,
                ),
                cli::CommandView::SetAsciiHz { hz, persist } => asks(
                    turn,
                    turn.action->Send_command,
                    transact::AcceptView::Rate,
                    baud,
                ) && session::writes_rate(turn.action, hz as int, 5),
                cli::CommandView::GetBin => s is Output && asks(
                    turn,
                    proto::command_line("VNRRG,75"@),
                    transact::AcceptView::Prefix("$VNRRG,75,"@),
                    baud,
                ),
                cli::CommandView::SetBin { action, persist } => asks(
                    turn,
                    proto::command_line("VNRRG,75"@),
                    transact::AcceptView::Prefix("$VNRRG,75,"@),
                    baud,
                ),
                cli::CommandView::SetBinHz { hz, persist } => asks(
                    turn,
                    proto::command_line("VNRRG,75"@),
                    transact::AcceptView::Prefix("$VNRRG,75,"@),
                    baud,
                ),
                cli::CommandView::SetBaud { baud: rate, persist } => writes_baud(turn, rate, baud),
                cli::CommandView::Reset => turn.output.len() == 0 && turn.action
                    == (session::ActionView::Reboot {
                    command: proto::command_line("VNRST"@),
                    accept: transact::AcceptView::Prefix("$VNRST"@),
                }),
                cli::CommandView::FactoryReset => turn.output == seq![
                    session::said(
                        "Restoring factory defaults — this overwrites flash and cannot be undone."@,
                    ),
                ] && turn.action == (session::ActionView::Reboot {
                    command: proto::command_line("VNRFS"@),
                    accept: transact::AcceptView::Prefix("$VNRFS"@),
                }),
                cli::CommandView::Rrg { id } => asks(
                    turn,
                    turn.action->Send_command,
                    transact::AcceptView::Prefix("$VNRRG,"@),
                    baud,
                ),
                cli::CommandView::Wrg { id, params } => asks(
                    turn,
                    turn.action->Send_command,
                    transact::AcceptView::Prefix("$VNWRG,"@),
                    baud,
                ),
                cli::CommandView::Bench { secs } => turn.output == seq![
                    session::said(
                        "Measuring the live stream for "@ + number::decimal(secs as nat)
                            + "s (passive — no device writes)..."@,
                    ),
                ] && turn.action == (session::ActionView::Measure { secs }),
            }
        }),
{
    let turn = run::started(baud, c).1;
    proto::law_built_command_verifies("VNRRG,06"@);
    proto::law_built_command_verifies("VNRRG,75"@);
    if turn.output.len() == 1 {
        assert(turn.output =~= seq![turn.output[0]]);
    }
    match c {
        cli::CommandView::SetAscii { preset, persist } => {
            session::lemma_preset_command(preset);
        },
        cli::CommandView::SetAsciiHz { hz, persist } => {
            session::lemma_rate_command(hz);
        },
        cli::CommandView::SetBaud { baud: rate, persist } => {
            law_baud_sends_the_rate(baud, rate, persist);
        },
        cli::CommandView::Rrg { id } => {
            law_rrg_reads_the_register(baud, id);
        },
        cli::CommandView::Wrg { id, params } => {
            proto::law_built_command_verifies(run::write_payload(id, params));
        },
        _ => {},
    }
}

/// The configuring tool sends the same commands, reads and writes the async rate,
/// and hands every option of a bench on to it.
#[verifier::rlimit(80)]
pub proof fn law_configuring_commands_send_what_they_name(baud: u32, c: rdwr::CommandView)
    ensures
        ({
            let (s, turn) = run::configuring_started(baud, c);
            match c {
                rdwr::CommandView::Help => s is Finished && turn.output.len() == 0 && turn.action
                    == session::ActionView::Done(Ok(())),
                rdwr::CommandView::GetHz => asks(
                    turn,
                    proto::command_line("VNRRG,07"@),
                    transact::AcceptView::Rate,
                    baud,
                ),
                rdwr::CommandView::SetHz { hz, persist } => asks(
                    turn,
                    turn.action->Send_command,
                    transact::AcceptView::Rate,
                    baud,
                ) && session::writes_rate(turn.action, hz as int, 5),
                rdwr::CommandView::SetBaud { baud: rate, persist } => (s, turn) == run::started(
                    baud,
                    cli::CommandView::SetBaud { baud: rate, persist },
                ),
                rdwr::CommandView::Reset => (s, turn) == run::started(
                    baud,
                    cli::CommandView::Reset,
                ),
                rdwr::CommandView::FactoryReset => (s, turn) == run::started(
                    baud,
                    cli::CommandView::FactoryReset,
                ),
                rdwr::CommandView::Rrg { id } => (s, turn) == run::started(
                    baud,
                    cli::CommandView::Rrg { id },
                ),
                rdwr::CommandView::Wrg { id, params } => (s, turn) == run::started(
                    baud,
                    cli::CommandView::Wrg { id, params },
                ),
                rdwr::CommandView::Bench { binary, hz, secs, fields, serial_port, ascii_type } => {
                    &&& turn.output.len() == 0
                    &&& session::sends_command(
                        turn.action,
                        proto::command_line("VNRRG,07"@),
                        5,
                        transact::AcceptView::Rate,
                    )
                    &&& binary ==> (s matches run::StateView::Binary(b, step) && step is ReadRate
                        && b.baud == baud && b.hz == hz && b.secs == secs && b.fields == fields
                        && b.serial_port == serial_port)
                    &&& !binary ==> (s matches run::StateView::Ascii(b, step) && step is ReadRate
                        && b.baud == baud && b.hz == hz && b.secs == secs && b.ascii_type
                        == ascii_type)
                },
            }
        }),
{
    proto::law_built_command_verifies("VNRRG,07"@);
    match c {
        rdwr::CommandView::SetHz { hz, persist } => {
            session::lemma_rate_command(hz);
        },
        _ => {},
    }
}

// ---------------------------------------------------------------------------
// What comes of a reply
// ---------------------------------------------------------------------------
/// Whether a session goes on from here as an acknowledged setting does: saved to
/// flash where that was asked for, else done.
pub open spec fn saved_or_done(
    next: run::StateView,
    turn: session::TurnView,
    persist: bool,
    baud: u32,
) -> bool {
    if persist {
        &&& next is Saving
        &&& session::sends_command(
            turn.action,
            proto::command_line("VNWNV"@),
            5,
            transact::AcceptView::Prefix("$VNWNV"@),
        )
        &&& turn.action->missing == session::no_reply(baud)
    } else {
        next is Finished && turn.action == session::ActionView::Done(Ok(()))
    }
}

/// Every reply is shown as it came, and then what it says: the rate of a register-7
/// reply, the preset of a register-6 one, the configuration of a register-75 one,
/// the fields of any other.
#[verifier::rlimit(80)]
pub proof fn law_replies_are_shown(baud: u32, s: run::StateView, e: Event)
    requires
        e is Replied,
        e->Replied_0 is Ok,
    ensures
        ({
            let (next, turn) = run::stepped(baud, s, e);
            let reply = e->Replied_0->Ok_0@;
            &&& s matches run::StateView::Rate { persist } ==> turn.output == seq![
                session::rx(reply),
                session::said(
                    "Async output rate: "@ + number::decimal(proto::reg07_value(reply)->0 as nat)
                        + " Hz"@,
                ),
            ] && saved_or_done(next, turn, persist, baud)
            &&& s matches run::StateView::Preset { persist } ==> turn.output == seq![
                session::rx(reply),
                session::said(
                    "Async output type: "@ + registers::preset_display(
                        proto::reg06_value(reply)->0 as u8,
                    ) + " (ADOR "@ + number::decimal((proto::reg06_value(reply)->0 as u8) as nat) + ")"@,
                ),
            ] && saved_or_done(next, turn, persist, baud)
            &&& s matches run::StateView::Register { accept, persist } ==> turn.output == seq![
                session::rx(reply),
                session::said(session::reg_fields(reply)),
            ] && saved_or_done(next, turn, persist, baud)
            &&& s is Output ==> turn.output.len() == 2 && turn.output[0] == session::rx(reply)
                && turn.action == session::ActionView::Done(Ok(())) && turn.output[1]
                == session::said(
                match output::reply_output(reply) {
                    Some(o) => output::shown(o),
                    None => session::reg_fields(reply),
                },
            )
            &&& s is Saving ==> turn.output == seq![
                session::rx(reply),
                session::said("Settings written to non-volatile memory."@),
            ] && next is Finished && turn.action == session::ActionView::Done(Ok(()))
        }),
{
    proto::law_built_command_verifies("VNWNV"@);
    let (next, turn) = run::stepped(baud, s, e);
    if turn.output.len() == 2 {
        assert(turn.output =~= seq![turn.output[0], turn.output[1]]);
    }
}

/// An error in place of what was waited for ends the session with that error and
/// prints nothing, but in a configuring bench, which has things to put back.
#[verifier::rlimit(80)]
pub proof fn law_errors_end_the_session(baud: u32, s: run::StateView, e: Event)
    requires
        session::answers(run::awaits(s), e),
        s !is Ascii,
        s !is Binary,
    ensures
        ({
            let (next, turn) = run::stepped(baud, s, e);
            let error = match e {
                Event::Replied(Err(t)) => Some(t@),
                Event::Rebooted(Err(t)) => Some(t@),
                Event::Switched(Err(t)) => Some(t@),
                Event::Failed(t) => Some(t@),
                _ => None,
            };
            error matches Some(t) ==> next is Finished && turn.output.len() == 0 && turn.action
                == session::ActionView::Done(Err(t))
        }),
{
}

/// A reboot that went well shows its reply and says what follows from it.
#[verifier::rlimit(80)]
pub proof fn law_reboots_say_what_follows(baud: u32, e: Event)
    requires
        e is Rebooted,
        e->Rebooted_0 is Ok,
    ensures
        run::stepped(baud, run::StateView::Resetting, e).1 == (session::TurnView {
            output: seq![
                session::said(e->Rebooted_0->Ok_0@),
                session::said(
                    "Reset requested — sensor is rebooting and reloading its saved settings."@,
                ),
            ],
            action: session::ActionView::Done(Ok(())),
        }),
        run::stepped(baud, run::StateView::Restoring, e).1 == (session::TurnView {
            output: seq![
                session::said(e->Rebooted_0->Ok_0@),
                session::said("Factory restore requested — sensor is rebooting."@),
                session::said(
                    "It is now at 115200 baud with the default async output. Reconnect with the default --baud (115200)."@,
                ),
            ],
            action: session::ActionView::Done(Ok(())),
        }),
{
    let a = run::stepped(baud, run::StateView::Resetting, e).1.output;
    let b = run::stepped(baud, run::StateView::Restoring, e).1.output;
    assert(a =~= seq![a[0], a[1]]);
    assert(b =~= seq![b[0], b[1], b[2]]);
}

/// A passive bench reports what was measured, and succeeds exactly where something
/// was seen.
#[verifier::rlimit(80)]
pub proof fn law_passive_bench_reports(baud: u32, e: Event)
    requires
        e is Measured,
    ensures
        ({
            let (next, turn) = run::stepped(baud, run::StateView::Streaming, e);
            let st = e->Measured_0;
            &&& next is Finished
            &&& turn.output == report::report_cells(baud, st)
            &&& turn.action is Done
            &&& turn.action->Done_0 is Ok <==> st.msgs > 0 || st.frames > 0
            &&& turn.action->Done_0 is Err ==> turn.action->Done_0->Err_0
                == "saw no ASCII messages or binary frames — is the device streaming, and does --baud match its current rate?"@
        }),
{
}

// ---------------------------------------------------------------------------
// Changing the binary output
// ---------------------------------------------------------------------------
/// A change of the binary output writes back the configuration that was read, with
/// nothing but the requested part changed; the setting is saved if that was asked
/// for. What cannot be read or changed is not written.
#[verifier::rlimit(80)]
pub proof fn law_output_is_changed_in_one_part(
    baud: u32,
    c: cli::CommandView,
    e: Event,
    o: BinOutput,
)
    requires
        run::command_wf(c),
        e is Replied,
        e->Replied_0 is Ok,
        output::reply_output(e->Replied_0->Ok_0@) == Some(o),
    ensures
        ({
            let (next, turn) = run::stepped(baud, run::started(baud, c).0, e);
            let persist = run::asks_to_save(c);
            let p = output::reply_output(turn.action->Send_command)->0;
            let written = next == (run::StateView::Register {
                accept: transact::AcceptView::Prefix("$VNWRG,75"@),
                persist,
            }) && configure::writes_output(turn.action, p, 5) && turn.action->missing
                == session::no_reply(baud);
            &&& c is SetBin || c is SetBinHz ==> turn.output == seq![
                session::rx(e->Replied_0->Ok_0@),
            ]
            &&& c matches cli::CommandView::SetBinHz { hz, persist: _ } ==> written && p.mode
                == o.mode && p.divisor * hz == 800 && p.mask == o.mask
            &&& c matches cli::CommandView::SetBin {
                action: cli::BinSetView::Off,
                persist: _,
            } ==> written && p.mode == 0 && p.divisor == o.divisor && p.mask == o.mask
            &&& c matches cli::CommandView::SetBin {
                action: cli::BinSetView::Enable,
                persist: _,
            } ==> if o.mask == 0 {
                next is Finished && turn.action == session::ActionView::Done(
                    Err(
                        "no binary fields are configured; set them first with set-bin-fields=<FIELDS>"@,
                    ),
                )
            } else {
                written && p.mode != 0 && (o.mode != 0 ==> p.mode == o.mode) && p.divisor
                    == o.divisor && p.mask == o.mask
            }
            &&& c matches cli::CommandView::SetBin {
                action: cli::BinSetView::Fields(fs),
                persist: _,
            } ==> written && p.mode == o.mode && p.divisor == o.divisor && (forall|bit: u8|
                bit < 16 ==> (#[trigger] fields::has_bit(p.mask, bit) <==> exists|i: int|
                    0 <= i < fs.len() && (#[trigger] fs[i]).bit == bit))
        }),
{
    let (next, turn) = run::stepped(baud, run::started(baud, c).0, e);
    if turn.output.len() == 1 {
        assert(turn.output =~= seq![turn.output[0]]);
    }
    match c {
        cli::CommandView::SetBinHz { hz, persist } => {
            let p = output::with_rate(o, hz);
            registers::law_binary_rates(hz, 0);
            assert(p.divisor * hz == 800) by (nonlinear_arith)
                requires
                    p.divisor == 800u32 / hz,
                    hz * (800u32 / hz) == 800,
            ;
            configure::lemma_output_command(p);
        },
        cli::CommandView::SetBin { action, persist } => {
            match output::changed(o, action) {
                Ok(p) => {
                    configure::lemma_output_command(p);
                    match action {
                        cli::BinSetView::Fields(fs) => {
                            assert forall|bit: u8| bit < 16 implies (#[trigger] fields::has_bit(
                                p.mask,
                                bit,
                            ) <==> exists|i: int|
                                0 <= i < fs.len() && (#[trigger] fs[i]).bit == bit) by {
                                fields::lemma_mask_bits(fs, bit);
                            }
                        },
                        _ => {},
                    }
                },
                Err(_) => {},
            }
        },
        _ => {},
    }
}

/// A configuration that is not understood is left alone: the change ends with an
/// error that shows the reply.
#[verifier::rlimit(80)]
pub proof fn law_unknown_output_is_left_alone(baud: u32, c: cli::CommandView, e: Event)
    requires
        c is SetBin || c is SetBinHz,
        e is Replied,
        e->Replied_0 is Ok,
        output::reply_output(e->Replied_0->Ok_0@) is None,
    ensures
        ({
            let (next, turn) = run::stepped(baud, run::started(baud, c).0, e);
            let reply = e->Replied_0->Ok_0@;
            &&& next is Finished
            &&& turn.output == seq![session::rx(reply)]
            &&& turn.action == session::ActionView::Done(
                Err("unrecognized binary output configuration: "@ + reply),
            )
        }),
{
    let (next, turn) = run::stepped(baud, run::started(baud, c).0, e);
    assert(turn.output =~= seq![turn.output[0]]);
}

// ---------------------------------------------------------------------------
// Before the port is open
// ---------------------------------------------------------------------------
/// Help and version are shown without the port; every other command announces the
/// port and its baud rate, a passive bench after the version.
pub proof fn law_port_is_announced(
    config: cli::ConfigView,
    c: cli::CommandView,
    d: rdwr::CommandView,
)
    ensures
        ({
            let open = "Opening "@ + config.port + " at "@ + number::decimal(config.baud as nat)
                + " baud...\n"@;
            let version = "rw-vn100 "@ + cli::VERSION@ + "\n"@;
            &&& run::prelude_of(config, c) == if c is Help {
                run::PreludeView::Show(cli::help())
            } else if c is Version {
                run::PreludeView::Show(version)
            } else if c is Bench {
                run::PreludeView::Open(version + open)
            } else {
                run::PreludeView::Open(open)
            }
            &&& run::configuring_prelude_of(config, d) == if d is Help {
                run::PreludeView::Show(rdwr::help())
            } else {
                run::PreludeView::Open(open)
            }
        }),
{
}


// ---------------------------------------------------------------------------
// Configuring benches
// ---------------------------------------------------------------------------
/// A session of a configuring bench takes the turns of its bench, one after another
/// and with the same request throughout, and is over when the bench is.
#[verifier::rlimit(80)]
pub proof fn law_benches_take_their_turns(
    baud: u32,
    a: configure::AsciiBench,
    astep: configure::AsciiStep,
    b: configure::BinaryBenchView,
    bstep: configure::BinaryStepView,
    e: Event,
)
    ensures
        ({
            let (step, turn) = configure::ascii_stepped(a, astep, e);
            run::stepped(baud, run::StateView::Ascii(a, astep), e) == (
                if step is Some {
                    run::StateView::Ascii(a, step->0)
                } else {
                    run::StateView::Finished
                },
                turn,
            )
        }),
        ({
            let (step, turn) = configure::binary_stepped(b, bstep, e);
            run::stepped(baud, run::StateView::Binary(b, bstep), e) == (
                if step is Some {
                    run::StateView::Binary(b, step->0)
                } else {
                    run::StateView::Finished
                },
                turn,
            )
        }),
{
}

} // verus!
