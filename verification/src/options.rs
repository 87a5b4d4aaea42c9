//! What the command line asks for.
use crate::selection::{or_unknown, text_of, unknown_if_missing, Layer, OutputInfo};
use crate::text::{
    ascii_lowercase, decimal, decimal_string, law_decimal_stands_for_the_number, lowercase,
    number_of, replace_char, replaced, same_text, split, strip_prefix,
};
use vstd::prelude::*;
use vstd::string::is_ascii;

verus! {

/// What the program is to do.
pub enum Invocation {
    /// Print the monitors and end.
    ListOutputs,
    /// Play the video on the selected monitors.
    Play { monitor: String, video: String },
}

/// What is missing on the command line.
#[derive(Clone, Copy, Debug, PartialEq, Eq)]
pub enum UsageError {
    MissingOutput,
    MissingVideo,
}

/// The layer that was chosen, and what the user is told of it.
pub struct LayerChoice {
    pub layer: Layer,
    pub warning: Option<String>,
}

/// A command for the player.
pub struct PlayerCommand {
    pub name: String,
    pub args: Vec<String>,
}

/// One step of setting up the player. The first that fails is the last, but for
/// `RemoveConfig`, which may fail.
pub enum SetupStep {
    SetOption { name: String, value: String },
    WriteConfig { path: String, contents: String },
    LoadConfig { path: String },
    RemoveConfig { path: String },
}

/// A step of setting up the player, as text.
pub enum SetupStepView {
    SetOption { name: Seq<char>, value: Seq<char> },
    WriteConfig { path: Seq<char>, contents: Seq<char> },
    LoadConfig { path: Seq<char> },
    RemoveConfig { path: Seq<char> },
}

impl View for SetupStep {
    type V = SetupStepView;

    open spec fn view(&self) -> SetupStepView {
        match self {
            SetupStep::SetOption { name, value } => SetupStepView::SetOption {
                name: name@,
                value: value@,
            },
            SetupStep::WriteConfig { path, contents } => SetupStepView::WriteConfig {
                path: path@,
                contents: contents@,
            },
            SetupStep::LoadConfig { path } => SetupStepView::LoadConfig { path: path@ },
            SetupStep::RemoveConfig { path } => SetupStepView::RemoveConfig { path: path@ },
        }
    }
}

/// The layer of that name.
pub open spec fn named_layer(name: Seq<char>) -> Option<Layer> {
    if name == "top"@ {
        Some(Layer::Top)
    } else if name == "bottom"@ {
        Some(Layer::Bottom)
    } else if name == "overlay"@ {
        Some(Layer::Overlay)
    } else if name == "background"@ {
        Some(Layer::Background)
    } else {
        None
    }
}

/// The warning for a layer that there is not.
pub open spec fn unknown_layer_message(name: Seq<char>) -> Seq<char> {
    "Unknown layer '"@ + name + "', defaulting to background"@
}

impl LayerChoice {
    /// The choice for a name in lower case: the layer of that name, or the background and a
    /// warning.
    pub open spec fn is_for(self, name: Seq<char>) -> bool {
        match named_layer(name) {
            Some(layer) => self.layer == layer && self.warning is None,
            None => {
                &&& self.layer == Layer::Background
                &&& text_of(self.warning) == Some(unknown_layer_message(name))
            },
        }
    }
}

/// The characters of each string.
pub open spec fn texts(strings: Seq<String>) -> Seq<Seq<char>> {
    strings.map_values(|s: String| s@)
}

/// The temporary file that carries the options of the player, for the process of that number.
pub open spec fn config_path_text(pid: u32) -> Seq<char> {
    "/tmp/mpvpaper-rs-"@ + decimal(pid as nat) + ".conf"@
}

/// The options that the player always gets.
pub open spec fn fixed_options() -> Seq<SetupStepView> {
    seq![
        SetupStepView::SetOption { name: "input-default-bindings"@, value: "yes"@ },
        SetupStepView::SetOption { name: "input-terminal"@, value: "yes"@ },
        SetupStepView::SetOption { name: "terminal"@, value: "yes"@ },
        SetupStepView::SetOption { name: "config"@, value: "yes"@ },
        SetupStepView::SetOption { name: "background-color"@, value: "#00000000"@ },
        SetupStepView::SetOption { name: "vo"@, value: "libmpv"@ },
    ]
}

/// The options of the user, by way of a file that is removed once it has been loaded. Where
/// loading fails, it stays.
pub open spec fn forwarded_options(options: Seq<char>, pid: u32) -> Seq<SetupStepView> {
    let path = config_path_text(pid);
    seq![
        SetupStepView::WriteConfig { path, contents: replaced(options, ' ', '\n') },
        SetupStepView::LoadConfig { path },
        SetupStepView::RemoveConfig { path },
    ]
}

/// All steps of setting up the player.
pub open spec fn setup_steps(options: Option<Seq<char>>, pid: u32) -> Seq<SetupStepView> {
    match options {
        Some(options) => fixed_options() + forwarded_options(options, pid),
        None => fixed_options(),
    }
}

/// The line that describes a monitor.
pub open spec fn listing_line_text(info: OutputInfo) -> Seq<char> {
    "Output: "@ + or_unknown(info.name) + "  Identifier: "@ + or_unknown(info.description)
}

/// The lines for all monitors that the compositor has described.
pub open spec fn listing_text(infos: Seq<Option<OutputInfo>>) -> Seq<Seq<char>> {
    infos.filter_map(
        |info: Option<OutputInfo>|
            match info {
                Some(info) => Some(listing_line_text(info)),
                None => None,
            },
    )
}

/// What the arguments ask for. Monitor and video may be left out only where the monitors are
/// listed.
pub fn invocation(show_outputs: bool, output: Option<String>, video: Option<String>) -> (result:
    Result<Invocation, UsageError>)
    ensures
        match result {
            Ok(Invocation::ListOutputs) => show_outputs,
            Ok(Invocation::Play { monitor, video: file }) => {
                &&& !show_outputs
                &&& output == Some(monitor)
                &&& video == Some(file)
            },
            Err(UsageError::MissingOutput) => !show_outputs && output is None,
            Err(UsageError::MissingVideo) => !show_outputs && output is Some && video is None,
        },
{
    if show_outputs {
        return Ok(Invocation::ListOutputs);
    }
    match output {
        None => Err(UsageError::MissingOutput),
        Some(monitor) => match video {
            None => Err(UsageError::MissingVideo),
            Some(video) => Ok(Invocation::Play { monitor, video }),
        },
    }
}

/// The layer with the given name in lower case.
pub fn layer_for(name: &str) -> (choice: LayerChoice)
    ensures
        choice.is_for(name@),
{
    let named: Option<Layer> = if same_text(name, "top") {
        Some(Layer::Top)
    } else if same_text(name, "bottom") {
        Some(Layer::Bottom)
    } else if same_text(name, "overlay") {
        Some(Layer::Overlay)
    } else if same_text(name, "background") {
        Some(Layer::Background)
    } else {
        None
    };
    match named {
        Some(layer) => LayerChoice { layer, warning: None },
        None => {
            let start: String = "Unknown layer '".to_owned();
            let warning: String = start.concat(name).concat("', defaulting to background");
            LayerChoice { layer: Layer::Background, warning: Some(warning) }
        },
    }
}

/// The layer that the argument names, in whatever case.
pub fn parse_layer(arg: &str) -> (choice: LayerChoice)
    ensures
        choice.is_for(lowercase(arg@)),
        is_ascii(arg) ==> choice.is_for(ascii_lowercase(arg@)),
{
    let lower: String = arg.to_lowercase();
    layer_for(lower.as_str())
}

/// The command that loads the video, or the playlist where `--playlist=` precedes its path.
pub fn load_command(video: &str) -> (command: PlayerCommand)
    ensures
        if "--playlist="@.is_prefix_of(video@) {
            &&& command.name@ == "loadlist"@
            &&& texts(command.args@) == seq![video@.skip("--playlist="@.len() as int), "replace"@]
        } else {
            &&& command.name@ == "loadfile"@
            &&& texts(command.args@) == seq![video@, "replace"@]
        },
{
    match strip_prefix(video, "--playlist=") {
        Some(playlist) => {
            proof {
                let prefix = "--playlist="@;
                assert(prefix.is_prefix_of(video@)) by {
                    assert(prefix =~= video@.subrange(0, prefix.len() as int));
                }
                assert(video@.skip(prefix.len() as int) =~= playlist@);
            }
            let args: Vec<String> = vec![playlist, "replace".to_owned()];
            assert(texts(args@) =~= seq![playlist@, "replace"@]);
            PlayerCommand { name: "loadlist".to_owned(), args }
        },
        None => {
            let args: Vec<String> = vec![video.to_owned(), "replace".to_owned()];
            assert(texts(args@) =~= seq![video@, "replace"@]);
            PlayerCommand { name: "loadfile".to_owned(), args }
        },
    }
}

/// The temporary file that carries the options of the player.
pub fn config_path(pid: u32) -> (path: String)
    ensures
        path@ == config_path_text(pid),
{
    let start: String = "/tmp/mpvpaper-rs-".to_owned();
    start.concat(decimal_string(pid).as_str()).concat(".conf")
}

/// An option with its value.
fn set_option(name: &str, value: &str) -> (step: SetupStep)
    ensures
        step@ == (SetupStepView::SetOption { name: name@, value: value@ }),
{
    SetupStep::SetOption { name: name.to_owned(), value: value.to_owned() }
}

/// The steps of setting up the player, in order.
pub fn player_setup(options: &Option<String>, pid: u32) -> (steps: Vec<SetupStep>)
    ensures
        steps@.map_values(|s: SetupStep| s@) == setup_steps(text_of(*options), pid),
{
    let mut steps: Vec<SetupStep> = vec![
        set_option("input-default-bindings", "yes"),
        set_option("input-terminal", "yes"),
        set_option("terminal", "yes"),
        set_option("config", "yes"),
        set_option("background-color", "#00000000"),
        set_option("vo", "libmpv"),
    ];
    assert(steps@.map_values(|s: SetupStep| s@) =~= fixed_options());
    if let Some(options) = options {
        let contents: String = replace_char(options.as_str(), ' ', '\n');
        steps.push(SetupStep::WriteConfig { path: config_path(pid), contents });
        steps.push(SetupStep::LoadConfig { path: config_path(pid) });
        steps.push(SetupStep::RemoveConfig { path: config_path(pid) });
        assert(steps@.map_values(|s: SetupStep| s@) =~= fixed_options() + forwarded_options(
            options@,
            pid,
        ));
    }
    steps
}

/// The line that describes a monitor.
pub fn listing_line(info: &OutputInfo) -> (line: String)
    ensures
        line@ == listing_line_text(*info),
{
    let start: String = "Output: ".to_owned();
    let named: String = start.concat(unknown_if_missing(&info.name).as_str());
    named.concat("  Identifier: ").concat(unknown_if_missing(&info.description).as_str())
}

/// The lines for all monitors that the compositor has described, in order.
pub fn output_listing(infos: &Vec<Option<OutputInfo>>) -> (lines: Vec<String>)
    ensures
        texts(lines@) == listing_text(infos@),
{
    let mut lines: Vec<String> = Vec::new();
    assert(infos@.take(0) =~= Seq::empty());
    assert(texts(lines@) =~= listing_text(infos@.take(0)));
    for i in 0..infos.len()
        invariant
            texts(lines@) == listing_text(infos@.take(i as int)),
    {
        assert(infos@.take(i + 1).drop_last() =~= infos@.take(i as int));
        let ghost before = lines@;
        if let Some(info) = &infos[i] {
            lines.push(listing_line(info));
            assert(texts(lines@) =~= texts(before) + seq![listing_line_text(*info)]);
        }
    }
    assert(infos@.take(infos@.len() as int) =~= infos@);
    lines
}

/// The options reach the player one by one: the lines of the file are the words of the option
/// string, as they stand between its spaces.
pub proof fn law_each_option_has_its_line(options: Seq<char>)
    requires
        !options.contains('\n'),
    ensures
        split(replaced(options, ' ', '\n'), '\n') == split(options, ' '),
    decreases options.len(),
{
    let file = replaced(options, ' ', '\n');
    if options.len() > 0 {
        let front = options.drop_last();
        assert forall|c: char| front.contains(c) implies options.contains(c) by {
            let k = choose|k: int| 0 <= k < front.len() && front[k] == c;
            assert(options[k] == c);
        }
        law_each_option_has_its_line(front);
        assert(file.drop_last() =~= replaced(front, ' ', '\n'));
        assert(options.contains(options.last()));
    } else {
        assert(file =~= options);
    }
}

/// Two processes that run at the same time use different files.
pub proof fn law_processes_do_not_share_a_file(a: u32, b: u32)
    requires
        a != b,
    ensures
        config_path_text(a) != config_path_text(b),
{
    if config_path_text(a) == config_path_text(b) {
        let start = "/tmp/mpvpaper-rs-"@;
        let end = ".conf"@;
        let da = decimal(a as nat);
        let db = decimal(b as nat);
        assert(config_path_text(a).len() == start.len() + da.len() + end.len());
        assert(config_path_text(b).len() == start.len() + db.len() + end.len());
        let to = (start.len() + da.len()) as int;
        assert(da =~= config_path_text(a).subrange(start.len() as int, to));
        assert(db =~= config_path_text(b).subrange(start.len() as int, to));
        lemma_decimal_is_injective(a as nat, b as nat);
    }
}

/// A number has one decimal notation, and no two numbers share it.
proof fn lemma_decimal_is_injective(a: nat, b: nat)
    requires
        decimal(a) == decimal(b),
    ensures
        a == b,
    decreases a,
{
    lemma_decimal_is_not_empty(a / 10);
    lemma_decimal_is_not_empty(b / 10);
    assert(decimal(a).last() == decimal(b).last());
    assert(decimal(a).last() as nat == 48 + a % 10);
    assert(decimal(b).last() as nat == 48 + b % 10);
    if a >= 10 && b >= 10 {
        assert(decimal(a).drop_last() =~= decimal(a / 10));
        assert(decimal(b).drop_last() =~= decimal(b / 10));
        lemma_decimal_is_injective(a / 10, b / 10);
    }
}

/// Every number has a digit.
proof fn lemma_decimal_is_not_empty(n: nat)
    ensures
        decimal(n).len() > 0,
{
}

/// The arguments ask for a list exactly if that flag is set. Otherwise both monitor and video have
/// to be there, and are handed on as they are; of the two, the monitor is missed first.
pub proof fn law_arguments_are_handed_on(
    show_outputs: bool,
    output: Option<String>,
    video: Option<String>,
    result: Result<Invocation, UsageError>,
)
    requires
        call_ensures(invocation, (show_outputs, output, video), result),
    ensures
        show_outputs ==> (result matches Ok(asked) && asked is ListOutputs),
        !show_outputs && output is None ==> (result matches Err(error) && error is MissingOutput),
        !show_outputs && output is Some && video is None ==> (result matches Err(error)
            && error is MissingVideo),
        !show_outputs && output is Some && video is Some ==> (result matches Ok(
            Invocation::Play { monitor, video: file },
        ) && monitor@ == output->0@ && file@ == video->0@),
{
}

/// A call of `layer_for` gives the layer of that name without a word. For every other name it gives
/// the background, and tells the user so.
pub proof fn law_layers_go_by_name(name: &str, choice: LayerChoice)
    requires
        call_ensures(layer_for, (name,), choice),
    ensures
        name@ == "top"@ ==> choice.layer is Top && choice.warning is None,
        name@ == "bottom"@ ==> choice.layer is Bottom && choice.warning is None,
        name@ == "overlay"@ ==> choice.layer is Overlay && choice.warning is None,
        name@ == "background"@ ==> choice.layer is Background && choice.warning is None,
        name@ != "top"@ && name@ != "bottom"@ && name@ != "overlay"@ && name@ != "background"@ ==> {
            &&& choice.layer is Background
            &&& choice.warning is Some
            &&& choice.warning->0@ == "Unknown layer '"@ + name@ + "', defaulting to background"@
        },
{
    reveal_strlit("top");
    reveal_strlit("bottom");
    reveal_strlit("overlay");
    reveal_strlit("background");
    assert("top"@.len() == 3 && "bottom"@.len() == 6);
    assert("overlay"@.len() == 7 && "background"@.len() == 10);
}

/// The case of a layer argument does not matter: a call of `parse_layer` on ASCII text chooses as
/// `layer_for` does on the same text in small letters. On other text it goes by what
/// `str::to_lowercase` makes of it.
pub proof fn law_layer_arguments_have_no_case(
    arg: &str,
    parsed: LayerChoice,
    lower: &str,
    choice: LayerChoice,
)
    requires
        call_ensures(parse_layer, (arg,), parsed),
        call_ensures(layer_for, (lower,), choice),
        lower@ == lowercase(arg@) || (is_ascii(arg) && lower@.len() == arg@.len() && forall|i: int|
            0 <= i < arg@.len() ==> {
                &&& 'A' <= arg@[i] <= 'Z' ==> (#[trigger] lower@[i]) as int == arg@[i] as int + 32
                &&& !('A' <= arg@[i] <= 'Z') ==> lower@[i] == arg@[i]
            }),
    ensures
        parsed.layer == choice.layer,
        parsed.warning is Some <==> choice.warning is Some,
        parsed.warning is Some ==> parsed.warning->0@ == choice.warning->0@,
{
    if lower@ != lowercase(arg@) {
        assert(lower@ =~= ascii_lowercase(arg@));
    }
}

/// A call of `load_command` takes what follows `--playlist=` for the path of a playlist, and any
/// other text for the path of a video. Either way the path is handed on as it is, to replace what
/// is being played.
pub proof fn law_path_is_handed_on(video: &str, command: PlayerCommand, rest: Seq<char>)
    requires
        call_ensures(load_command, (video,), command),
    ensures
        command.args@.len() == 2,
        command.args@[1]@ == "replace"@,
        video@ == "--playlist="@ + rest ==> command.name@ == "loadlist"@ && command.args@[0]@
            == rest,
        (forall|tail: Seq<char>| video@ != #[trigger] ("--playlist="@ + tail)) ==> command.name@
            == "loadfile"@ && command.args@[0]@ == video@,
{
    let prefix = "--playlist="@;
    let all = texts(command.args@);
    assert(all.len() == command.args@.len());
    assert(all[0] == command.args@[0]@ && all[1] == command.args@[1]@);
    if video@ == prefix + rest {
        assert(prefix =~= video@.subrange(0, prefix.len() as int));
        assert(video@.skip(prefix.len() as int) =~= rest);
    }
    if prefix.is_prefix_of(video@) {
        assert(video@ =~= prefix + video@.skip(prefix.len() as int));
    }
}

/// The row of digits is the decimal notation of the number, without zeros in front.
pub open spec fn is_notation_of(digits: Seq<char>, n: int) -> bool {
    &&& digits.len() > 0
    &&& forall|i: int| 0 <= i < digits.len() ==> '0' <= #[trigger] digits[i] <= '9'
    &&& digits[0] == '0' ==> digits.len() == 1
    &&& number_of(digits) == n
}

/// A call of `config_path` gives a file below `/tmp` that bears the number of the process.
pub proof fn law_file_bears_the_number_of_the_process(pid: u32, path: String)
    requires
        call_ensures(config_path, (pid,), path),
    ensures
        exists|digits: Seq<char>| #[trigger]
            is_notation_of(digits, pid as int) && path@ == "/tmp/mpvpaper-rs-"@ + digits
                + ".conf"@,
{
    law_decimal_stands_for_the_number(pid as nat);
    assert(is_notation_of(decimal(pid as nat), pid as int));
}

/// The step sets this option of the player to this value.
pub open spec fn sets(step: SetupStep, option: Seq<char>, setting: Seq<char>) -> bool {
    step matches SetupStep::SetOption { name, value } && name@ == option && value@ == setting
}

/// A call of `player_setup` sets the same six options first, whatever the user asks for, and takes
/// no other step if there are no options of the user.
pub proof fn law_player_gets_the_fixed_options(
    options: &Option<String>,
    pid: u32,
    steps: Vec<SetupStep>,
)
    requires
        call_ensures(player_setup, (options, pid), steps),
    ensures
        steps@.len() == if *options is Some {
            9nat
        } else {
            6nat
        },
        sets(steps@[0], "input-default-bindings"@, "yes"@),
        sets(steps@[1], "input-terminal"@, "yes"@),
        sets(steps@[2], "terminal"@, "yes"@),
        sets(steps@[3], "config"@, "yes"@),
        sets(steps@[4], "background-color"@, "#00000000"@),
        sets(steps@[5], "vo"@, "libmpv"@),
{
    let views = steps@.map_values(|s: SetupStep| s@);
    assert(views == setup_steps(text_of(*options), pid));
    assert(views.len() == steps@.len());
    assert(views[0] == steps@[0]@ && views[1] == steps@[1]@ && views[2] == steps@[2]@);
    assert(views[3] == steps@[3]@ && views[4] == steps@[4]@ && views[5] == steps@[5]@);
}

/// With options of the user, a call of `player_setup` writes one file, loads that file and removes
/// it, in this order and after all else. The file has the name that `config_path` gives, and holds
/// the option string with a line break for each space and nothing else changed.
pub proof fn law_options_go_through_one_file(
    options: &Option<String>,
    pid: u32,
    steps: Vec<SetupStep>,
    file: String,
)
    requires
        call_ensures(player_setup, (options, pid), steps),
        call_ensures(config_path, (pid,), file),
    ensures
        *options is None ==> forall|k: int| 0 <= k < steps@.len() ==> #[trigger] steps@[k]
            is SetOption,
        *options matches Some(text) ==> {
            &&& forall|k: int| 0 <= k < steps@.len() && (#[trigger] steps@[k] is WriteConfig) ==> k
                == 6
            &&& steps@[6] matches SetupStep::WriteConfig { path: written, contents }
            &&& steps@[7] matches SetupStep::LoadConfig { path: loaded }
            &&& steps@[8] matches SetupStep::RemoveConfig { path: removed }
            &&& written@ == file@
            &&& loaded@ == file@
            &&& removed@ == file@
            &&& contents@.len() == text@.len()
            &&& forall|i: int|
                0 <= i < text@.len() ==> #[trigger] contents@[i] == if text@[i] == ' ' {
                    '\n'
                } else {
                    text@[i]
                }
        },
{
    law_player_gets_the_fixed_options(options, pid, steps);
    let views = steps@.map_values(|s: SetupStep| s@);
    assert(views == setup_steps(text_of(*options), pid));
    assert(steps@[0] is SetOption && steps@[1] is SetOption && steps@[2] is SetOption);
    assert(steps@[3] is SetOption && steps@[4] is SetOption && steps@[5] is SetOption);
    if *options is Some {
        assert(views[6] == steps@[6]@);
        assert(views[7] == steps@[7]@);
        assert(views[8] == steps@[8]@);
    }
}

/// The options of the user reach the player one by one: if the option string has no line break,
/// the lines of the file that a call of `player_setup` writes are the parts of the option string
/// between its spaces.
pub proof fn law_lines_are_the_options(
    options: &Option<String>,
    pid: u32,
    steps: Vec<SetupStep>,
    k: int,
)
    requires
        call_ensures(player_setup, (options, pid), steps),
        *options is Some,
        !options->0@.contains('\n'),
        0 <= k < steps@.len(),
        steps@[k] is WriteConfig,
    ensures
        k == 6,
        split(steps@[k]->contents@, '\n') == split(options->0@, ' '),
{
    let views = steps@.map_values(|s: SetupStep| s@);
    assert(views == setup_steps(text_of(*options), pid));
    assert(views[k] == steps@[k]@);
    law_player_gets_the_fixed_options(options, pid, steps);
    law_each_option_has_its_line(options->0@);
    assert(k >= 6);
}

/// A call of `listing_line` names the monitor and then describes it, with a question mark for what
/// the compositor has not said.
pub proof fn law_line_names_the_monitor(
    info: &OutputInfo,
    line: String,
    name: String,
    description: String,
)
    requires
        call_ensures(listing_line, (info,), line),
        call_ensures(unknown_if_missing, (&info.name,), name),
        call_ensures(unknown_if_missing, (&info.description,), description),
    ensures
        line@ == "Output: "@ + name@ + "  Identifier: "@ + description@,
{
}

/// A call of `output_listing` gives each monitor that the compositor has described its own line, in
/// order, and the others none: one monitor more at the end adds its line at the end, or nothing.
pub proof fn law_each_monitor_adds_its_line(
    infos: &Vec<Option<OutputInfo>>,
    lines: Vec<String>,
    front: &Vec<Option<OutputInfo>>,
    front_lines: Vec<String>,
    info: OutputInfo,
    line: String,
)
    requires
        call_ensures(output_listing, (infos,), lines),
        call_ensures(output_listing, (front,), front_lines),
        call_ensures(listing_line, (&info,), line),
    ensures
        infos@.len() == 0 ==> lines@.len() == 0,
        infos@ == front@.push(None) ==> lines@.len() == front_lines@.len(),
        infos@ == front@.push(Some(info)) ==> {
            &&& lines@.len() == front_lines@.len() + 1
            &&& lines@[front_lines@.len() as int]@ == line@
        },
        infos@ == front@.push(None) || infos@ == front@.push(Some(info)) ==> forall|k: int|
            0 <= k < front_lines@.len() ==> #[trigger] lines@[k]@ == front_lines@[k]@,
{
    let all = texts(lines@);
    let before = texts(front_lines@);
    assert(all.len() == lines@.len());
    assert(before.len() == front_lines@.len());
    assert forall|k: int| 0 <= k < lines@.len() implies #[trigger] lines@[k]@ == all[k] by {}
    assert forall|k: int| 0 <= k < front_lines@.len() implies #[trigger] front_lines@[k]@
        == before[k] by {}
    if infos@ == front@.push(None) {
        assert(infos@.drop_last() =~= front@);
        assert(all == before);
    }
    if infos@ == front@.push(Some(info)) {
        assert(infos@.drop_last() =~= front@);
        assert(all == before + seq![listing_line_text(info)]);
    }
}

} // verus!
