//! The `config` subcommands: what each does to the configuration, whether it
//! has to be saved, and what is printed.

use vstd::prelude::*;
use vstd::string::*;
use crate::config::{default_ignores, is_default_config, Config};
use crate::text::{decimal, list_contains, push_decimal, same, texts};

verus! {

/// A `config` subcommand.
#[derive(Debug, Clone)]
pub enum ConfigCommand {
    /// Show current configuration
    Show,
    /// Add an ignore pattern
    AddIgnore { pattern: String },
    /// Remove an ignore pattern
    RemoveIgnore { pattern: String },
    /// Reset configuration to defaults
    Reset,
    /// Get, set, or clear the default embedding model for new databases
    Model { name: Option<String>, clear: bool },
}

/// What the caller does after a subcommand.
#[derive(Debug)]
pub struct ConfigOutcome {
    /// Write the configuration back.
    pub save: bool,
    /// Print these lines.
    pub lines: Vec<String>,
}

/// Why a subcommand was refused.
#[derive(Debug, Clone, Copy, PartialEq, Eq, Structural)]
pub enum ConfigError {
    /// The model is not one that can be loaded.
    UnknownModel,
}

/// The built-in model.
pub open spec fn baseline_model() -> Seq<char> {
    "openai/clip-vit-base-patch32"@
}

/// Line number `n` of a list of patterns.
pub open spec fn numbered(n: nat, item: Seq<char>) -> Seq<char> {
    "  "@ + decimal(n) + ". "@ + item
}

/// The patterns as a numbered list, from 1.
pub open spec fn numbered_list(items: Seq<Seq<char>>) -> Seq<Seq<char>> {
    Seq::new(items.len(), |i: int| numbered((i + 1) as nat, items[i]))
}

/// What `config show` prints.
pub open spec fn show_lines(
    path: Seq<char>,
    model: Option<Seq<char>>,
    patterns: Seq<Seq<char>>,
) -> Seq<Seq<char>> {
    seq![
        "Configuration file: "@ + path,
        "Default model: "@ + match model {
            Some(m) => m,
            None => "(built-in baseline) "@ + baseline_model(),
        },
        "Ignore patterns:"@,
    ] + if patterns.len() == 0 {
        seq!["  (none)"@]
    } else {
        numbered_list(patterns)
    }
}

/// The place of the first occurrence of `s`, where there is one.
pub open spec fn first_place(list: Seq<Seq<char>>, s: Seq<char>) -> int
    decreases list.len(),
{
    if list.len() == 0 {
        0
    } else if list[0] == s {
        0
    } else {
        1 + first_place(list.skip(1), s)
    }
}

/// The patterns after `config add-ignore`.
pub open spec fn added(patterns: Seq<Seq<char>>, p: Seq<char>) -> Seq<Seq<char>> {
    if patterns.contains(p) {
        patterns
    } else {
        patterns.push(p)
    }
}

/// The patterns after `config remove-ignore`: the first occurrence is gone.
pub open spec fn removed(patterns: Seq<Seq<char>>, p: Seq<char>) -> Seq<Seq<char>> {
    if patterns.contains(p) {
        patterns.remove(first_place(patterns, p))
    } else {
        patterns
    }
}

/// The name of a model, where one is set.
pub open spec fn model_text(model: Option<String>) -> Option<Seq<char>> {
    match model {
        Some(m) => Some(m@),
        None => None,
    }
}

/// All but the patterns and the default model are as they were.
pub open spec fn same_sections(a: Config, b: Config) -> bool {
    &&& a.index == b.index
    &&& a.search == b.search
    &&& a.gui == b.gui
}

/// Whether `outcome` saves as `save` says and prints `lines`.
pub open spec fn is_outcome(
    outcome: Result<ConfigOutcome, ConfigError>,
    save: bool,
    lines: Seq<Seq<char>>,
) -> bool {
    outcome matches Ok(o) && o.save == save && texts(o.lines@) == lines
}

fn prefixed(prefix: &str, rest: &str) -> (r: String)
    ensures
        r@ == prefix@ + rest@,
{
    prefix.to_owned().concat(rest)
}

fn one_line(prefix: &str, rest: &str) -> (r: Vec<String>)
    ensures
        texts(r@) == seq![prefix@ + rest@],
{
    let v: Vec<String> = vec![prefixed(prefix, rest)];
    assert(texts(v@) == seq![prefix@ + rest@]);
    v
}

fn push_numbered(lines: &mut Vec<String>, items: &Vec<String>)
    ensures
        texts(final(lines)@) == texts(old(lines)@) + numbered_list(texts(items@)),
{
    let ghost start = texts(lines@);
    let mut i: usize = 0;
    assert(start + numbered_list(texts(items@)).take(0) == start);
    while i < items.len()
        invariant
            i <= items@.len(),
            texts(lines@) == start + numbered_list(texts(items@)).take(i as int),
        decreases items@.len() - i,
    {
        let ghost before = lines@;
        let mut line: String = "  ".to_owned();
        push_decimal(&mut line, i as u64 + 1);
        line.append(". ");
        line.append(items[i].as_str());
        assert(line@ == numbered((i + 1) as nat, texts(items@)[i as int]));
        lines.push(line);
        proof {
            assert(texts(lines@) == texts(before).push(line@));
            assert(numbered_list(texts(items@)).take(i + 1) == numbered_list(texts(items@)).take(
                i as int,
            ).push(line@));
        }
        i = i + 1;
    }
    assert(numbered_list(texts(items@)).take(i as int) == numbered_list(texts(items@)));
}

proof fn first_place_found(list: Seq<Seq<char>>, s: Seq<char>, i: int)
    requires
        0 <= i < list.len(),
        list[i] == s,
        forall|k: int| 0 <= k < i ==> list[k] != s,
    ensures
        first_place(list, s) == i,
    decreases i,
{
    if i > 0 {
        first_place_found(list.skip(1), s, i - 1);
    }
}

fn position(list: &Vec<String>, s: &str) -> (r: Option<usize>)
    ensures
        r is Some <==> texts(list@).contains(s@),
        r matches Some(i) ==> i < list@.len() && i == first_place(texts(list@), s@),
{
    let mut i: usize = 0;
    while i < list.len()
        invariant
            i <= list@.len(),
            forall|k: int| 0 <= k < i ==> texts(list@)[k] != s@,
        decreases list@.len() - i,
    {
        if same(list[i].as_str(), s) {
            proof {
                assert(texts(list@)[i as int] == s@);
                first_place_found(texts(list@), s@, i as int);
            }
            return Some(i);
        }
        i = i + 1;
    }
    None
}

fn show(config: &Config, config_path: &str) -> (lines: Vec<String>)
    ensures
        texts(lines@) == show_lines(
            config_path@,
            model_text(config.default_model),
            texts(config.ignore_patterns@),
        ),
{
    let mut lines: Vec<String> = Vec::new();
    lines.push(prefixed("Configuration file: ", config_path));
    match &config.default_model {
        Some(m) => {
            lines.push(prefixed("Default model: ", m.as_str()));
        },
        None => {
            let baseline: String = prefixed(
                "(built-in baseline) ",
                "openai/clip-vit-base-patch32",
            );
            lines.push(prefixed("Default model: ", baseline.as_str()));
        },
    }
    lines.push("Ignore patterns:".to_owned());
    let ghost head = texts(lines@);
    if config.ignore_patterns.len() == 0 {
        lines.push("  (none)".to_owned());
        assert(texts(lines@) == head + seq!["  (none)"@]);
    } else {
        push_numbered(&mut lines, &config.ignore_patterns);
    }
    assert(texts(lines@) == show_lines(
        config_path@,
        model_text(config.default_model),
        texts(config.ignore_patterns@),
    ));
    lines
}

/// Runs a subcommand on the loaded configuration. `supported` are the models
/// that can be loaded.
pub fn handle_config_command(
    config: &mut Config,
    config_path: &str,
    command: &ConfigCommand,
    supported: &Vec<String>,
) -> (r: Result<ConfigOutcome, ConfigError>)
    ensures
        match *command {
            ConfigCommand::Show => {
                &&& *final(config) == *old(config)
                &&& is_outcome(
                    r,
                    false,
                    show_lines(
                        config_path@,
                        model_text(old(config).default_model),
                        texts(old(config).ignore_patterns@),
                    ),
                )
            },
            ConfigCommand::AddIgnore { pattern } => {
                let known = texts(old(config).ignore_patterns@).contains(pattern@);
                &&& same_sections(*final(config), *old(config))
                &&& final(config).default_model == old(config).default_model
                &&& texts(final(config).ignore_patterns@) == added(
                    texts(old(config).ignore_patterns@),
                    pattern@,
                )
                &&& is_outcome(
                    r,
                    !known,
                    seq![
                        if known {
                            "Pattern already exists: "@
                        } else {
                            "Added ignore pattern: "@
                        } + pattern@,
                    ],
                )
            },
            ConfigCommand::RemoveIgnore { pattern } => {
                let known = texts(old(config).ignore_patterns@).contains(pattern@);
                &&& same_sections(*final(config), *old(config))
                &&& final(config).default_model == old(config).default_model
                &&& texts(final(config).ignore_patterns@) == removed(
                    texts(old(config).ignore_patterns@),
                    pattern@,
                )
                &&& is_outcome(
                    r,
                    known,
                    seq![
                        if known {
                            "Removed ignore pattern: "@
                        } else {
                            "Pattern not found: "@
                        } + pattern@,
                    ],
                )
            },
            ConfigCommand::Reset => {
                &&& is_default_config(*final(config))
                &&& is_outcome(
                    r,
                    true,
                    seq!["Configuration reset to defaults"@, "Default ignore patterns:"@]
                        + numbered_list(default_ignores()),
                )
            },
            ConfigCommand::Model { name, clear } => {
                &&& same_sections(*final(config), *old(config))
                &&& final(config).ignore_patterns == old(config).ignore_patterns
                &&& if clear {
                    &&& final(config).default_model is None
                    &&& is_outcome(
                        r,
                        true,
                        seq!["Cleared default model (reverting to the built-in baseline)."@],
                    )
                } else {
                    match name {
                        Some(n) => if texts(supported@).contains(n@) {
                            &&& model_text(final(config).default_model) == Some(n@)
                            &&& is_outcome(r, true, seq!["Default model set to "@ + n@])
                        } else {
                            &&& final(config).default_model == old(config).default_model
                            &&& r == Err::<ConfigOutcome, ConfigError>(ConfigError::UnknownModel)
                        },
                        None => {
                            &&& final(config).default_model == old(config).default_model
                            &&& is_outcome(
                                r,
                                false,
                                seq![
                                    match model_text(old(config).default_model) {
                                        Some(m) => "Default model: "@ + m,
                                        None => "No default model set (using built-in baseline openai/clip-vit-base-patch32)"@,
                                    },
                                ],
                            )
                        },
                    }
                }
            },
        },
{
    match command {
        ConfigCommand::Show => Ok(ConfigOutcome { save: false, lines: show(config, config_path) }),
        ConfigCommand::AddIgnore { pattern } => {
            if list_contains(&config.ignore_patterns, pattern.as_str()) {
                Ok(
                    ConfigOutcome {
                        save: false,
                        lines: one_line("Pattern already exists: ", pattern.as_str()),
                    },
                )
            } else {
                let ghost before = config.ignore_patterns@;
                config.ignore_patterns.push(pattern.clone());
                assert(texts(config.ignore_patterns@) == texts(before).push(pattern@));
                Ok(
                    ConfigOutcome {
                        save: true,
                        lines: one_line("Added ignore pattern: ", pattern.as_str()),
                    },
                )
            }
        },
        ConfigCommand::RemoveIgnore { pattern } => {
            match position(&config.ignore_patterns, pattern.as_str()) {
                Some(index) => {
                    let ghost before = config.ignore_patterns@;
                    config.ignore_patterns.remove(index);
                    assert(texts(config.ignore_patterns@) == texts(before).remove(index as int));
                    Ok(
                        ConfigOutcome {
                            save: true,
                            lines: one_line("Removed ignore pattern: ", pattern.as_str()),
                        },
                    )
                },
                None => Ok(
                    ConfigOutcome {
                        save: false,
                        lines: one_line("Pattern not found: ", pattern.as_str()),
                    },
                ),
            }
        },
        ConfigCommand::Reset => {
            *config = Config::default();
            let mut lines: Vec<String> = vec![
                "Configuration reset to defaults".to_owned(),
                "Default ignore patterns:".to_owned(),
            ];
            assert(texts(lines@) == seq![
                "Configuration reset to defaults"@,
                "Default ignore patterns:"@,
            ]);
            push_numbered(&mut lines, &config.ignore_patterns);
            Ok(ConfigOutcome { save: true, lines })
        },
        ConfigCommand::Model { name, clear } => {
            if *clear {
                config.default_model = None;
                let lines: Vec<String> = vec![
                    "Cleared default model (reverting to the built-in baseline).".to_owned(),
                ];
                assert(texts(lines@) == seq![
                    "Cleared default model (reverting to the built-in baseline)."@,
                ]);
                Ok(ConfigOutcome { save: true, lines })
            } else {
                match name {
                    Some(n) => {
                        // Only allow models that can actually be loaded.
                        if !list_contains(supported, n.as_str()) {
                            return Err(ConfigError::UnknownModel);
                        }
                        config.default_model = Some(n.clone());
                        Ok(
                            ConfigOutcome {
                                save: true,
                                lines: one_line("Default model set to ", n.as_str()),
                            },
                        )
                    },
                    None => {
                        let lines: Vec<String> = match &config.default_model {
                            Some(m) => one_line("Default model: ", m.as_str()),
                            None => {
                                let v: Vec<String> = vec![
                                    "No default model set (using built-in baseline openai/clip-vit-base-patch32)".to_owned(),
                                ];
                                assert(texts(v@) == seq![
                                    "No default model set (using built-in baseline openai/clip-vit-base-patch32)"@,
                                ]);
                                v
                            },
                        };
                        Ok(ConfigOutcome { save: false, lines })
                    },
                }
            }
        },
    }
}

/// Adding a pattern that is already there changes nothing, so adding twice is
/// adding once, and the pattern is there afterwards.
pub proof fn adding_twice_is_adding_once(patterns: Seq<Seq<char>>, p: Seq<char>)
    ensures
        added(added(patterns, p), p) == added(patterns, p),
        added(patterns, p).contains(p),
{
    if !patterns.contains(p) {
        assert(patterns.push(p).last() == p);
    }
}

/// Removing a pattern undoes adding it.
pub proof fn removing_undoes_adding(patterns: Seq<Seq<char>>, p: Seq<char>)
    requires
        !patterns.contains(p),
    ensures
        removed(added(patterns, p), p) == patterns,
{
    let more = patterns.push(p);
    assert(more.last() == p);
    assert forall|k: int| 0 <= k < patterns.len() implies more[k] != p by {
        assert(more[k] == patterns[k]);
    }
    first_place_found(more, p, patterns.len() as int);
    assert(more.remove(patterns.len() as int) == patterns);
}

proof fn first_place_is_first(list: Seq<Seq<char>>, s: Seq<char>)
    requires
        list.contains(s),
    ensures
        0 <= first_place(list, s) < list.len(),
        list[first_place(list, s)] == s,
        forall|k: int| 0 <= k < first_place(list, s) ==> list[k] != s,
    decreases list.len(),
{
    if list[0] != s {
        let i = choose|i: int| 0 <= i < list.len() && list[i] == s;
        let rest = list.skip(1);
        assert(rest[i - 1] == s);
        first_place_is_first(rest, s);
        let at = first_place(rest, s);
        assert(list[at + 1] == rest[at]);
        assert forall|k: int| 0 <= k < at + 1 implies list[k] != s by {
            if k > 0 {
                assert(list[k] == rest[k - 1]);
            }
        }
    }
}

/// Adding keeps every pattern in its place and puts the new one behind them;
/// no other pattern comes in.
pub proof fn adding_only_adds(patterns: Seq<Seq<char>>, p: Seq<char>, q: Seq<char>)
    ensures
        patterns.is_prefix_of(added(patterns, p)),
        added(patterns, p).contains(q) <==> patterns.contains(q) || q == p,
        added(patterns, p).len() == patterns.len() + (if patterns.contains(p) {
            0int
        } else {
            1int
        }),
        !patterns.contains(p) ==> added(patterns, p).last() == p,
{
    let more = added(patterns, p);
    if !patterns.contains(p) {
        assert(more[patterns.len() as int] == p);
        if patterns.contains(q) {
            let i = choose|i: int| 0 <= i < patterns.len() && patterns[i] == q;
            assert(more[i] == q);
        }
        if more.contains(q) {
            let i = choose|i: int| 0 <= i < more.len() && more[i] == q;
            if i < patterns.len() {
                assert(patterns[i] == q);
            }
        }
    }
}

/// Removing takes away the pattern that was named, where it first stands, and
/// nothing else: what stood before it stays where it is, what stood behind
/// it moves up by one place, and a list without the pattern stays as it is.
pub proof fn removing_takes_only_what_was_named(
    patterns: Seq<Seq<char>>,
    p: Seq<char>,
    q: Seq<char>,
)
    ensures
        !patterns.contains(p) ==> removed(patterns, p) == patterns,
        patterns.contains(p) ==> exists|at: int|
            {
                &&& 0 <= at < patterns.len()
                &&& #[trigger] patterns[at] == p
                &&& removed(patterns, p).len() == patterns.len() - 1
                &&& forall|k: int|
                    0 <= k < at ==> patterns[k] != p && #[trigger] removed(patterns, p)[k]
                        == patterns[k]
                &&& forall|k: int|
                    at < k < patterns.len() ==> removed(patterns, p)[k - 1]
                        == #[trigger] patterns[k]
            },
        q != p ==> (removed(patterns, p).contains(q) <==> patterns.contains(q)),
{
    if patterns.contains(p) {
        first_place_is_first(patterns, p);
        let at = first_place(patterns, p);
        let fewer = removed(patterns, p);
        assert(patterns[at] == p);
        if q != p && patterns.contains(q) {
            let i = choose|i: int| 0 <= i < patterns.len() && patterns[i] == q;
            if i < at {
                assert(fewer[i] == q);
            } else {
                assert(fewer[i - 1] == q);
            }
        }
        if fewer.contains(q) {
            let i = choose|i: int| 0 <= i < fewer.len() && fewer[i] == q;
            if i < at {
                assert(patterns[i] == q);
            } else {
                assert(patterns[i + 1] == q);
            }
        }
    }
}

/// Every pattern has its line, in order and counted from 1.
pub proof fn every_pattern_has_its_line(items: Seq<Seq<char>>, i: int)
    requires
        0 <= i < items.len(),
    ensures
        numbered_list(items).len() == items.len(),
        numbered_list(items)[i] == "  "@ + decimal((i + 1) as nat) + ". "@ + items[i],
{
}

/// The configuration is shown as it is: where it lies, the model that will be
/// used, and every pattern on a line of its own.
pub proof fn showing_leaves_nothing_out(
    path: Seq<char>,
    model: Option<Seq<char>>,
    patterns: Seq<Seq<char>>,
)
    ensures
        ({
            let lines = show_lines(path, model, patterns);
            &&& lines[0] == "Configuration file: "@ + path
            &&& model matches Some(m) ==> lines[1] == "Default model: "@ + m
            &&& model is None ==> lines[1] == "Default model: "@ + ("(built-in baseline) "@
                + "openai/clip-vit-base-patch32"@)
            &&& lines[2] == "Ignore patterns:"@
            &&& patterns.len() == 0 ==> lines.len() == 4 && lines[3] == "  (none)"@
            &&& patterns.len() > 0 ==> lines.len() == 3 + patterns.len()
            &&& forall|i: int|
                0 <= i < patterns.len() ==> lines[3 + i] == "  "@ + decimal((i + 1) as nat)
                    + ". "@ + #[trigger] patterns[i]
        }),
{
}

/// A command that went well says whether to save, and exactly the lines to
/// print; a refused one is no such outcome.
pub proof fn outcomes_say_what_to_save_and_print(
    outcome: Result<ConfigOutcome, ConfigError>,
    save: bool,
    lines: Seq<Seq<char>>,
)
    requires
        is_outcome(outcome, save, lines),
    ensures
        outcome is Ok,
        outcome->Ok_0.save == save,
        texts(outcome->Ok_0.lines@) == lines,
{
}

} // verus!
