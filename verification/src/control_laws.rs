//! What a command line asks for, and what is remembered of the hub's answers.

use crate::control;
use crate::control::ArgsError;
use vstd::prelude::*;

verus! {

/// Arguments that were understood do not change what those after them mean.
proof fn lemma_understood_prefix(
    args: Seq<String>,
    more: Seq<String>,
    i: int,
    config: Seq<char>,
    oneshot: bool,
)
    requires
        0 <= i <= args.len(),
    ensures
        control::args_from(args, i, config, oneshot) matches Ok((c, o)) ==> control::args_from(
            args + more,
            i,
            config,
            oneshot,
        ) == control::args_from(args + more, args.len() as int, c, o),
    decreases args.len() - i,
{
    if i < args.len() {
        assert((args + more)[i] == args[i]);
        if args[i]@ == "--config"@ {
            if i + 1 < args.len() {
                assert((args + more)[i + 1] == args[i + 1]);
                lemma_understood_prefix(args, more, i + 2, args[i + 1]@, oneshot);
            }
        } else if args[i]@ == "--oneshot"@ {
            lemma_understood_prefix(args, more, i + 1, config, true);
        }
    }
}

/// Without arguments nothing changes.
pub proof fn law_no_arguments(config: Seq<char>, oneshot: bool)
    ensures
        control::args_from(Seq::<String>::empty(), 0, config, oneshot) == Ok::<
            (Seq<char>, bool),
            ArgsError,
        >((config, oneshot)),
{
}

/// What one more argument does to a command line that was understood: a flag is
/// set, a path replaces the one before it, a path that is missing and an argument
/// that is not known are refused, the latter with its place.
pub proof fn law_one_more_argument(
    args: Seq<String>,
    arg: String,
    path: String,
    config: Seq<char>,
    oneshot: bool,
)
    requires
        args.len() < usize::MAX,
    ensures
        control::args_from(args, 0, config, oneshot) matches Ok((c, o)) ==> {
            &&& arg@ == "--oneshot"@ ==> control::args_from(args.push(arg), 0, config, oneshot)
                == Ok::<(Seq<char>, bool), ArgsError>((c, true))
            &&& arg@ == "--config"@ ==> control::args_from(
                args.push(arg).push(path),
                0,
                config,
                oneshot,
            ) == Ok::<(Seq<char>, bool), ArgsError>((path@, o))
            &&& arg@ == "--config"@ ==> control::args_from(args.push(arg), 0, config, oneshot)
                == Err::<(Seq<char>, bool), ArgsError>(ArgsError::NoPath)
            &&& arg@ != "--config"@ && arg@ != "--oneshot"@ ==> (control::args_from(
                args.push(arg),
                0,
                config,
                oneshot,
            ) matches Err(e) && e matches ArgsError::Unknown { index } && index == args.len())
        },
{
    reveal_strlit("--oneshot");
    reveal_strlit("--config");
    assert("--oneshot"@.len() != "--config"@.len());
    if let Ok((c, o)) = control::args_from(args, 0, config, oneshot) {
        let n = args.len() as int;
        let one = args.push(arg);
        let two = args.push(arg).push(path);
        assert(args + seq![arg] =~= one);
        assert(args + seq![arg, path] =~= two);
        lemma_understood_prefix(args, seq![arg], 0, config, oneshot);
        lemma_understood_prefix(args, seq![arg, path], 0, config, oneshot);
        assert(one[n] == arg && two[n] == arg && two[n + 1] == path);
        assert(control::args_from(one, n + 1, c, true) == Ok::<(Seq<char>, bool), ArgsError>(
            (c, true),
        ));
        assert(control::args_from(two, n + 2, path@, o) == Ok::<(Seq<char>, bool), ArgsError>(
            (path@, o),
        ));
    }
}

/// An argument that is not known is refused whatever follows it.
pub proof fn law_first_unknown_argument_is_named(
    args: Seq<String>,
    more: Seq<String>,
    i: int,
    config: Seq<char>,
    oneshot: bool,
)
    requires
        0 <= i <= args.len(),
        args.len() <= usize::MAX,
    ensures
        control::args_from(args, i, config, oneshot) matches Err(e) ==> e matches ArgsError::Unknown {
            index,
        } ==> {
            &&& i <= index < args.len()
            &&& args[index as int]@ != "--config"@
            &&& args[index as int]@ != "--oneshot"@
            &&& control::args_from(args + more, i, config, oneshot) == Err::<
                (Seq<char>, bool),
                ArgsError,
            >(e)
        },
    decreases args.len() - i,
{
    if i < args.len() {
        assert((args + more)[i] == args[i]);
        if args[i]@ == "--config"@ {
            if i + 1 < args.len() {
                assert((args + more)[i + 1] == args[i + 1]);
                law_first_unknown_argument_is_named(args, more, i + 2, args[i + 1]@, oneshot);
            }
        } else if args[i]@ == "--oneshot"@ {
            law_first_unknown_argument_is_named(args, more, i + 1, config, true);
        }
    }
}

/// Failures are counted one by one: there are none if and only if every write
/// succeeded, and each success in place of a failure is one failure less.
pub proof fn law_failures_are_counted(ok: Seq<bool>, n: int, k: int)
    requires
        0 <= n <= ok.len(),
    ensures
        control::failures(ok, n) <= n,
        control::failures(ok, n) == 0 <==> (forall|i: int| 0 <= i < n ==> #[trigger] ok[i]),
        0 <= k < n && !ok[k] ==> control::failures(ok.update(k, true), n) + 1
            == control::failures(ok, n),
        n <= k < ok.len() ==> control::failures(ok.update(k, true), n) == control::failures(ok, n),
    decreases n,
{
    if n > 0 {
        law_failures_are_counted(ok, n - 1, k);
        if 0 <= k < ok.len() && k != n - 1 {
            assert(ok.update(k, true)[n - 1] == ok[n - 1]);
        }
        if k == n - 1 {
            assert(ok.update(k, true)[n - 1]);
        }
        assert(control::failures(ok, n) == 0 ==> ok[n - 1]);
    }
}

/// The duty that is shown for a channel is the one that was written to it, and
/// the one before if no write to it succeeded.
pub proof fn law_written_duties_are_shown(
    before: Map<u8, u8>,
    channels: Seq<u8>,
    ok: Seq<bool>,
    duty: u8,
    n: int,
    channel: u8,
)
    requires
        0 <= n <= channels.len(),
        ok.len() == channels.len(),
    ensures
        ({
            let end = control::duties_after(before, channels, ok, duty, n);
            let written = exists|k: int| 0 <= k < n && #[trigger] channels[k] == channel && ok[k];
            &&& written ==> end.contains_key(channel) && end[channel] == duty
            &&& !written ==> (end.contains_key(channel) <==> before.contains_key(channel))
                && end[channel] == before[channel]
        }),
    decreases n,
{
    if n > 0 {
        law_written_duties_are_shown(before, channels, ok, duty, n - 1, channel);
        let m = control::duties_after(before, channels, ok, duty, n - 1);
        let earlier = exists|k: int|
            0 <= k < n - 1 && #[trigger] channels[k] == channel && ok[k];
        if channels[n - 1] == channel && ok[n - 1] {
            assert(control::duties_after(before, channels, ok, duty, n) == m.insert(channel, duty));
        } else if earlier {
            let k = choose|k: int| 0 <= k < n - 1 && #[trigger] channels[k] == channel && ok[k];
            assert(channels[k] == channel && ok[k]);
        }
    }
}

/// The speed that is shown for a channel is the last one read of it, and the one
/// before if none was read.
pub proof fn law_read_speeds_are_shown(
    before: Map<u8, u16>,
    channels: Seq<u8>,
    rpms: Seq<Option<u16>>,
    n: int,
    channel: u8,
)
    requires
        0 <= n <= channels.len(),
        rpms.len() == channels.len(),
    ensures
        ({
            let end = control::rpms_after(before, channels, rpms, n);
            &&& forall|k: int|
                0 <= k < n && #[trigger] channels[k] == channel && rpms[k] is Some && (forall|j: int|
                    k < j < n && #[trigger] channels[j] == channel ==> rpms[j] is None) ==> {
                    &&& end.contains_key(channel)
                    &&& Some(end[channel]) == rpms[k]
                }
            &&& (forall|k: int|
                0 <= k < n && #[trigger] channels[k] == channel ==> rpms[k] is None) ==> (
            end.contains_key(channel) <==> before.contains_key(channel)) && end[channel]
                == before[channel]
        }),
    decreases n,
{
    if n > 0 {
        law_read_speeds_are_shown(before, channels, rpms, n - 1, channel);
    }
}

} // verus!
