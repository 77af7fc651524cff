//! Where a deployment's files go in a bot's folder, and what is written there.
use vstd::prelude::*;

use crate::r2::{join_path, path_join};
use crate::text::{
    lemma_split_join, lemma_split_pieces, lemma_split_single, seq_starts_with, split_char, split_seq, starts_with, str_equal, str_views, string_views,
};

verus! {

/// `<bots_path>/bots/<part>`.
pub open spec fn bots_tree(bots_path: Seq<char>, part: Seq<char>) -> Seq<char> {
    path_join(path_join(bots_path, "bots"@), part)
}

/// The folder that a bot reads its configuration from: `<bots_path>/bots/instances/<bot>/conf`.
pub open spec fn instance_conf_spec(bots_path: Seq<char>, bot_name: Seq<char>) -> Seq<char> {
    path_join(path_join(bots_tree(bots_path, "instances"@), bot_name), "conf"@)
}

/// The shared folder of fetched configs: `<bots_path>/bots/conf`.
pub open spec fn shared_conf_spec(bots_path: Seq<char>) -> Seq<char> {
    bots_tree(bots_path, "conf"@)
}

/// The folder of a credentials profile: `<bots_path>/bots/credentials/<profile>`.
pub open spec fn credentials_spec(bots_path: Seq<char>, profile: Seq<char>) -> Seq<char> {
    path_join(bots_tree(bots_path, "credentials"@), profile)
}

/// The folder that `bot_name` reads its configuration from.
pub fn instance_conf_dir(bots_path: &str, bot_name: &str) -> (r: String)
    ensures
        r@ == instance_conf_spec(bots_path@, bot_name@),
{
    let bots = join_path(bots_path, "bots");
    let instances = join_path(bots.as_str(), "instances");
    let bot = join_path(instances.as_str(), bot_name);
    join_path(bot.as_str(), "conf")
}

/// The shared folder of fetched configs.
pub fn shared_conf_dir(bots_path: &str) -> (r: String)
    ensures
        r@ == shared_conf_spec(bots_path@),
{
    let bots = join_path(bots_path, "bots");
    join_path(bots.as_str(), "conf")
}

/// The folder of the credentials profile `profile`.
pub fn credentials_dir(bots_path: &str, profile: &str) -> (r: String)
    ensures
        r@ == credentials_spec(bots_path@, profile@),
{
    let bots = join_path(bots_path, "bots");
    let all = join_path(bots.as_str(), "credentials");
    join_path(all.as_str(), profile)
}

/// The entries of a credentials profile that stay behind when it is copied into a bot's
/// folder, so that they do not clash with the strategy's configs.
pub open spec fn kept_back(name: Seq<char>) -> bool {
    name == "scripts"@ || name == "controllers"@
}

/// Whether the profile entry `name` is copied into a bot's folder.
pub fn profile_entry_copied(name: &str) -> (r: bool)
    ensures
        r == !kept_back(name@),
{
    !(str_equal(name, "scripts") || str_equal(name, "controllers"))
}

/// The line that names the bot in a client config.
pub open spec fn instance_id_line(bot_name: Seq<char>) -> Seq<char> {
    "instance_id: "@ + bot_name
}

/// A line of a client config, with a top-level `instance_id` replaced by `bot_name`.
pub open spec fn rewritten_line(line: Seq<char>, bot_name: Seq<char>) -> Seq<char> {
    if seq_starts_with(line, "instance_id:"@) {
        instance_id_line(bot_name)
    } else {
        line
    }
}

/// Lines joined by newlines, as `split_seq` took them apart.
pub open spec fn join_lines(lines: Seq<Seq<char>>) -> Seq<char>
    decreases lines.len(),
{
    if lines.len() == 0 {
        Seq::empty()
    } else if lines.len() == 1 {
        lines[0]
    } else {
        join_lines(lines.drop_last()) + seq!['\n'] + lines.last()
    }
}

/// Whether some line sets `instance_id` at the top level.
pub open spec fn names_instance(lines: Seq<Seq<char>>) -> bool {
    exists|i: int| 0 <= i < lines.len() && seq_starts_with(lines[i], "instance_id:"@)
}

/// A client config that names `bot_name` as its instance: each top-level `instance_id`
/// line is replaced; where there is none, one is added at the end.
pub open spec fn client_config_text(text: Seq<char>, bot_name: Seq<char>) -> Seq<char> {
    let lines = split_seq(text, '\n');
    if names_instance(lines) {
        join_lines(lines.map_values(|l: Seq<char>| rewritten_line(l, bot_name)))
    } else if text.len() == 0 || text.last() == '\n' {
        text + instance_id_line(bot_name) + seq!['\n']
    } else {
        text + seq!['\n'] + instance_id_line(bot_name) + seq!['\n']
    }
}

/// Lines without newlines, joined, split back into the same lines.
proof fn lemma_split_join_lines(lines: Seq<Seq<char>>)
    requires
        lines.len() >= 1,
        forall|i: int| 0 <= i < lines.len() ==> !(#[trigger] lines[i]).contains('\n'),
    ensures
        split_seq(join_lines(lines), '\n') == lines,
    decreases lines.len(),
{
    if lines.len() == 1 {
        lemma_split_single(lines[0], '\n');
        assert(seq![lines[0]] =~= lines);
    } else {
        let rest = lines.drop_last();
        assert forall|i: int| 0 <= i < rest.len() implies !(#[trigger] rest[i]).contains('\n') by {
            assert(rest[i] == lines[i]);
        }
        lemma_split_join_lines(rest);
        lemma_split_join(join_lines(rest), lines.last(), '\n');
        lemma_split_single(lines.last(), '\n');
        assert(rest + seq![lines.last()] =~= lines);
    }
}

/// The line that names the bot holds no newline, and sets `instance_id`.
proof fn lemma_instance_id_line(bot_name: Seq<char>)
    requires
        !bot_name.contains('\n'),
    ensures
        !instance_id_line(bot_name).contains('\n'),
        seq_starts_with(instance_id_line(bot_name), "instance_id:"@),
{
    reveal_strlit("instance_id: ");
    reveal_strlit("instance_id:");
    let line = instance_id_line(bot_name);
    let head = "instance_id: "@;
    assert(line.subrange(0, 12) =~= "instance_id:"@);
    assert forall|j: int| 0 <= j < line.len() implies line[j] != '\n' by {
        if j >= head.len() {
            assert(line[j] == bot_name[j - head.len()]);
        }
    }
}

/// After the rewrite, a client config sets `instance_id` at the top level, and every line
/// that does so names the bot (a bot name without a line break).
pub proof fn law_client_config_names_bot(text: Seq<char>, bot_name: Seq<char>)
    requires
        !bot_name.contains('\n'),
    ensures
        names_instance(split_seq(client_config_text(text, bot_name), '\n')),
        forall|i: int|
            0 <= i < split_seq(client_config_text(text, bot_name), '\n').len()
                && seq_starts_with(
                #[trigger] split_seq(client_config_text(text, bot_name), '\n')[i],
                "instance_id:"@,
            ) ==> split_seq(client_config_text(text, bot_name), '\n')[i] == instance_id_line(
                bot_name,
            ),
{
    let lines = split_seq(text, '\n');
    let named = instance_id_line(bot_name);
    let result = client_config_text(text, bot_name);
    lemma_split_pieces(text, '\n');
    lemma_instance_id_line(bot_name);
    if names_instance(lines) {
        let mapped = lines.map_values(|l: Seq<char>| rewritten_line(l, bot_name));
        assert forall|i: int| 0 <= i < mapped.len() implies !(#[trigger] mapped[i]).contains(
            '\n',
        ) by {
            assert(!lines[i].contains('\n'));
        }
        lemma_split_join_lines(mapped);
        let k = choose|k: int| 0 <= k < lines.len() && seq_starts_with(lines[k], "instance_id:"@);
        assert(mapped[k] == named);
    } else {
        let empty = Seq::<char>::empty();
        lemma_split_single(named, '\n');
        assert(named + seq!['\n'] =~= named + seq!['\n'] + empty);
        lemma_split_join(named, empty, '\n');
        let tail = split_seq(named + seq!['\n'], '\n');
        assert(tail =~= seq![named, empty]);
        assert(!seq_starts_with(empty, "instance_id:"@)) by {
            reveal_strlit("instance_id:");
        }
        let front = if text.len() == 0 {
            Seq::<Seq<char>>::empty()
        } else if text.last() == '\n' {
            split_seq(text.drop_last(), '\n')
        } else {
            lines
        };
        if text.len() == 0 {
            assert(result =~= named + seq!['\n']);
            assert(split_seq(result, '\n') =~= front + tail);
        } else if text.last() == '\n' {
            assert(result =~= text.drop_last() + seq!['\n'] + (named + seq!['\n']));
            lemma_split_join(text.drop_last(), named + seq!['\n'], '\n');
            assert(text.drop_last().push('\n') =~= text);
            assert forall|i: int| 0 <= i < front.len() implies !seq_starts_with(
                #[trigger] front[i],
                "instance_id:"@,
            ) by {
                assert(lines[i] == front[i]);
            }
        } else {
            assert(result =~= text + seq!['\n'] + (named + seq!['\n']));
            lemma_split_join(text, named + seq!['\n'], '\n');
        }
        let all = split_seq(result, '\n');
        assert(all =~= front + tail);
        assert(all[front.len() as int] == named);
        assert forall|i: int| 0 <= i < all.len() && seq_starts_with(
            #[trigger] all[i],
            "instance_id:"@,
        ) implies all[i] == named by {
            if i < front.len() {
                assert(all[i] == front[i]);
            } else if i == front.len() + 1 {
                assert(all[i] == empty);
            }
        }
    }
}

/// `text`, a client config, made to name `bot_name` as its instance.
pub fn client_config_with_instance_id(text: &str, bot_name: &str) -> (r: String)
    ensures
        r@ == client_config_text(text@, bot_name@),
{
    let lines = split_char(text, '\n');
    let key = "instance_id:";
    let newline = "\n";
    proof {
        reveal_strlit("\n");
    }
    let mut named = String::from_str("instance_id: ");
    named.append(bot_name);
    let ghost views = str_views(lines@);
    let ghost f = |l: Seq<char>| rewritten_line(l, bot_name@);
    let mut out = String::new();
    let mut found = false;
    let mut i: usize = 0;
    while i < lines.len()
        invariant
            views == str_views(lines@),
            views == split_seq(text@, '\n'),
            f == (|l: Seq<char>| rewritten_line(l, bot_name@)),
            named@ == instance_id_line(bot_name@),
            key@ == "instance_id:"@,
            newline@ == seq!['\n'],
            0 <= i <= lines.len(),
            out@ == join_lines(views.take(i as int).map_values(f)),
            found == (exists|j: int| 0 <= j < i && seq_starts_with(views[j], "instance_id:"@)),
        decreases lines.len() - i,
    {
        let ghost before = views.take(i as int).map_values(f);
        let ghost after = views.take(i + 1).map_values(f);
        assert(after =~= before.push(f(views[i as int])));
        assert(views[i as int] == lines@[i as int]@);
        if i > 0 {
            out.append(newline);
        }
        let line = lines[i];
        if starts_with(line, key) {
            out.append(named.as_str());
            found = true;
        } else {
            out.append(line);
        }
        proof {
            if i == 0 {
                assert(after.len() == 1);
            } else {
                assert(after.drop_last() =~= before);
            }
        }
        i += 1;
    }
    assert(views.take(lines.len() as int) =~= views);
    if found {
        return out;
    }
    assert(!names_instance(views));
    let n = text.unicode_len();
    let mut r = String::from_str(text);
    if n > 0 && text.get_char(n - 1) != '\n' {
        r.append(newline);
    }
    r.append(named.as_str());
    r.append(newline);
    r
}

/// The YAML list items naming `controllers`, one line each.
pub open spec fn controller_items(controllers: Seq<Seq<char>>) -> Seq<char>
    decreases controllers.len(),
{
    if controllers.len() == 0 {
        Seq::empty()
    } else {
        controller_items(controllers.drop_last()) + "- "@ + controllers.last() + "\n"@
    }
}

/// A line `<key>: <value>` where there is a value; nothing where there is none.
pub open spec fn optional_line(key: Seq<char>, value: Option<Seq<char>>) -> Seq<char> {
    match value {
        Some(v) => key + ": "@ + v + "\n"@,
        None => Seq::empty(),
    }
}

/// The config of the controller runner script for `controllers`, with the drawdown
/// limits (already written as numbers) where they are given; keys in sorted order.
pub open spec fn v2_config_text(
    controllers: Seq<Seq<char>>,
    max_controller_drawdown: Option<Seq<char>>,
    max_global_drawdown: Option<Seq<char>>,
) -> Seq<char> {
    "candles_config: []\n"@ + "controllers_config:\n"@ + controller_items(controllers)
        + "markets: {}\n"@ + optional_line("max_controller_drawdown_quote"@, max_controller_drawdown)
        + optional_line("max_global_drawdown_quote"@, max_global_drawdown)
        + "script_file_name: v2_with_controllers.py\n"@
}

fn append_optional_line(out: &mut String, key: &str, value: Option<&str>)
    ensures
        final(out)@ == old(out)@ + optional_line(key@, match value {
            Some(v) => Some(v@),
            None => None,
        }),
{
    if let Some(v) = value {
        out.append(key);
        out.append(": ");
        out.append(v);
        out.append("\n");
    } else {
        assert(old(out)@ + Seq::<char>::empty() =~= old(out)@);
    }
}

/// The config that runs `controllers` under the controller runner script.
pub fn v2_script_config(
    controllers: &Vec<String>,
    max_controller_drawdown: Option<&str>,
    max_global_drawdown: Option<&str>,
) -> (r: String)
    ensures
        r@ == v2_config_text(
            string_views(controllers@),
            match max_controller_drawdown {
                Some(v) => Some(v@),
                None => None,
            },
            match max_global_drawdown {
                Some(v) => Some(v@),
                None => None,
            },
        ),
{
    let ghost names = string_views(controllers@);
    let mut out = String::from_str("candles_config: []\n");
    out.append("controllers_config:\n");
    let ghost head = out@;
    let mut i: usize = 0;
    while i < controllers.len()
        invariant
            names == string_views(controllers@),
            0 <= i <= controllers.len(),
            out@ == head + controller_items(names.take(i as int)),
        decreases controllers.len() - i,
    {
        assert(names.take(i + 1).drop_last() =~= names.take(i as int));
        out.append("- ");
        out.append(controllers[i].as_str());
        out.append("\n");
        assert(out@ =~= head + controller_items(names.take(i + 1)));
        i += 1;
    }
    assert(names.take(controllers.len() as int) =~= names);
    out.append("markets: {}\n");
    append_optional_line(&mut out, "max_controller_drawdown_quote", max_controller_drawdown);
    append_optional_line(&mut out, "max_global_drawdown_quote", max_global_drawdown);
    out.append("script_file_name: v2_with_controllers.py\n");
    out
}

} // verus!
