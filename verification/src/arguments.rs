//! Command-line dispatch: tokens are classified, gathered into groups headed
//! by the command or by a flag, and each group whose name is a registered
//! trigger yields one invocation of the command registered for it.

use crate::text::texts;
use vstd::prelude::*;
use vstd::string::*;

verus! {

/// The role a command-line token plays.
#[derive(Debug, Clone, Copy, PartialEq, Eq, Structural)]
pub enum ArgType {
    OPTION,
    VALUE,
    FLAG,
}

/// The commands a trigger can be registered for.
#[derive(Debug, Clone, Copy, PartialEq, Eq, Structural)]
pub enum Command {
    Help,
    Build,
    Run,
    New,
    Publish,
    GetFlags,
    Fetch,
    Test,
    Clean,
}

/// The mathematical content of an [`Arg`].
pub struct ArgView {
    pub name: Seq<char>,
    pub kind: ArgType,
}

/// The mathematical content of a [`Flag`]: a group's name and the values it owns.
pub struct FlagView {
    pub name: Seq<char>,
    pub values: Seq<ArgView>,
}

/// The mathematical content of an [`Operation`].
pub struct OperationView {
    pub trigger: Seq<char>,
    pub command: Command,
}

/// The mathematical content of an [`Invocation`].
pub struct InvocationView {
    pub trigger: Seq<char>,
    pub command: Command,
    pub values: Seq<ArgView>,
}

/// One classified command-line token.
#[derive(Debug)]
pub struct Arg {
    name: String,
    kind: ArgType,
}

/// A group: the command or a flag, with the value tokens that follow it.
#[derive(Debug)]
pub struct Flag {
    flag: String,
    values: Vec<Arg>,
}

/// Associates a trigger name with the command it starts.
#[derive(Debug)]
pub struct Operation {
    arg: String,
    command: Command,
}

/// One command to carry out, with the values of the group that triggered it.
#[derive(Debug)]
pub struct Invocation {
    trigger: String,
    command: Command,
    values: Vec<Arg>,
}

/// The parsed command line together with the registry of operations.
pub struct Arguments {
    args: Vec<Arg>,
    operations: Vec<Operation>,
    flags: Vec<Flag>,
}

impl View for Arg {
    type V = ArgView;

    closed spec fn view(&self) -> ArgView {
        ArgView { name: self.name@, kind: self.kind }
    }
}

impl View for Flag {
    type V = FlagView;

    closed spec fn view(&self) -> FlagView {
        FlagView { name: self.flag@, values: arg_views(self.values@) }
    }
}

impl View for Operation {
    type V = OperationView;

    closed spec fn view(&self) -> OperationView {
        OperationView { trigger: self.arg@, command: self.command }
    }
}

impl View for Invocation {
    type V = InvocationView;

    closed spec fn view(&self) -> InvocationView {
        InvocationView {
            trigger: self.trigger@,
            command: self.command,
            values: arg_views(self.values@),
        }
    }
}

pub open spec fn arg_views(args: Seq<Arg>) -> Seq<ArgView> {
    args.map_values(|a: Arg| a@)
}

pub open spec fn flag_views(flags: Seq<Flag>) -> Seq<FlagView> {
    flags.map_values(|f: Flag| f@)
}

pub open spec fn operation_views(operations: Seq<Operation>) -> Seq<OperationView> {
    operations.map_values(|o: Operation| o@)
}

pub open spec fn invocation_views(invocations: Seq<Invocation>) -> Seq<InvocationView> {
    invocations.map_values(|i: Invocation| i@)
}

pub open spec fn token_names(tokens: Seq<ArgView>) -> Seq<Seq<char>> {
    tokens.map_values(|t: ArgView| t.name)
}

pub open spec fn group_names(groups: Seq<FlagView>) -> Seq<Seq<char>> {
    groups.map_values(|g: FlagView| g.name)
}

pub open spec fn triggers(operations: Seq<OperationView>) -> Seq<Seq<char>> {
    operations.map_values(|o: OperationView| o.trigger)
}

/// Whether a token's text marks it as a flag: it begins with two dashes.
pub open spec fn is_flag_token(text: Seq<char>) -> bool {
    text.len() >= 2 && text[0] == '-' && text[1] == '-'
}

/// The role of the token at `position`: the first token is the command,
/// whatever its text; later tokens are flags or values by their text.
pub open spec fn token_kind(position: int, text: Seq<char>) -> ArgType {
    if position == 0 {
        ArgType::OPTION
    } else if is_flag_token(text) {
        ArgType::FLAG
    } else {
        ArgType::VALUE
    }
}

/// The typed token sequence of an argument vector.
pub open spec fn classify(argv: Seq<Seq<char>>) -> Seq<ArgView> {
    Seq::new(argv.len(), |i: int| ArgView { name: argv[i], kind: token_kind(i, argv[i]) })
}

/// The groups of a token sequence. The first token and every flag start a
/// group; every other token joins the values of the group started last.
pub open spec fn group_tokens(tokens: Seq<ArgView>) -> Seq<FlagView>
    decreases tokens.len(),
{
    if tokens.len() == 0 {
        Seq::empty()
    } else {
        let earlier = group_tokens(tokens.drop_last());
        let token = tokens.last();
        if tokens.len() == 1 || token.kind == ArgType::FLAG {
            earlier.push(FlagView { name: token.name, values: Seq::empty() })
        } else {
            earlier.drop_last().push(
                FlagView { name: earlier.last().name, values: earlier.last().values.push(token) },
            )
        }
    }
}

proof fn lemma_arg_views_push(args: Seq<Arg>, arg: Arg)
    ensures
        arg_views(args.push(arg)) == arg_views(args).push(arg@),
{
    assert(arg_views(args.push(arg)) =~= arg_views(args).push(arg@));
}

proof fn lemma_flag_views_push(flags: Seq<Flag>, flag: Flag)
    ensures
        flag_views(flags.push(flag)) == flag_views(flags).push(flag@),
{
    assert(flag_views(flags.push(flag)) =~= flag_views(flags).push(flag@));
}

/// `i` is the least index at which `names` holds `wanted`.
pub open spec fn is_first_match(names: Seq<Seq<char>>, wanted: Seq<char>, i: int) -> bool {
    &&& 0 <= i < names.len()
    &&& names[i] == wanted
    &&& forall|j: int| 0 <= j < i ==> names[j] != wanted
}

/// The least index at which `names` holds `wanted`, if it occurs at all.
pub open spec fn first_match(names: Seq<Seq<char>>, wanted: Seq<char>) -> Option<int> {
    if exists|i: int| is_first_match(names, wanted, i) {
        Some(choose|i: int| is_first_match(names, wanted, i))
    } else {
        None
    }
}

/// The operation that a name selects: the first one registered under it.
pub open spec fn select_operation(name: Seq<char>, operations: Seq<OperationView>) -> Option<
    OperationView,
> {
    match first_match(triggers(operations), name) {
        Some(i) => Some(operations[i]),
        None => None,
    }
}

/// The invocations that a sequence of groups gives rise to: one for each
/// group whose name selects an operation, in the order of the groups.
pub open spec fn dispatch(groups: Seq<FlagView>, operations: Seq<OperationView>) -> Seq<
    InvocationView,
>
    decreases groups.len(),
{
    if groups.len() == 0 {
        Seq::empty()
    } else {
        let earlier = dispatch(groups.drop_last(), operations);
        let group = groups.last();
        match select_operation(group.name, operations) {
            Some(operation) => earlier.push(
                InvocationView {
                    trigger: group.name,
                    command: operation.command,
                    values: group.values,
                },
            ),
            None => earlier,
        }
    }
}

/// A first match is the only first match.
pub proof fn lemma_first_match_found(names: Seq<Seq<char>>, wanted: Seq<char>, i: int)
    requires
        is_first_match(names, wanted, i),
    ensures
        first_match(names, wanted) == Some(i),
{
    let k = choose|k: int| is_first_match(names, wanted, k);
    assert(k == i) by {
        if k < i {
            assert(names[k] != wanted);
        } else if i < k {
            assert(names[i] != wanted);
        }
    }
}

/// A name that occurs nowhere has no first match.
pub proof fn lemma_first_match_absent(names: Seq<Seq<char>>, wanted: Seq<char>)
    requires
        forall|j: int| 0 <= j < names.len() ==> names[j] != wanted,
    ensures
        first_match(names, wanted) is None,
{
}

/// Decides whether a token begins with the flag marker.
pub fn has_flag_marker(text: &str) -> (b: bool)
    ensures
        b == is_flag_token(text@),
{
    text.unicode_len() >= 2 && text.get_char(0) == '-' && text.get_char(1) == '-'
}

fn clone_args(args: &[Arg]) -> (copy: Vec<Arg>)
    ensures
        arg_views(copy@) == arg_views(args@),
{
    let mut copy: Vec<Arg> = Vec::new();
    let mut i: usize = 0;
    proof {
        assert(arg_views(copy@) =~= arg_views(args@.take(0)));
    }
    while i < args.len()
        invariant
            i <= args.len(),
            arg_views(copy@) == arg_views(args@.take(i as int)),
        decreases args.len() - i,
    {
        let item = args[i].clone();
        proof {
            lemma_arg_views_push(copy@, item);
            lemma_arg_views_push(args@.take(i as int), args@[i as int]);
            assert(args@.take(i + 1) =~= args@.take(i as int).push(args@[i as int]));
        }
        copy.push(item);
        i += 1;
    }
    proof {
        assert(args@.take(i as int) =~= args@);
    }
    copy
}

impl Clone for Arg {
    fn clone(&self) -> (copy: Self)
        ensures
            copy@ == self@,
    {
        Arg { name: self.name.clone(), kind: self.kind }
    }
}

impl Clone for Flag {
    fn clone(&self) -> (copy: Self)
        ensures
            copy@ == self@,
    {
        Flag { flag: self.flag.clone(), values: clone_args(self.values.as_slice()) }
    }
}

impl Clone for Operation {
    fn clone(&self) -> (copy: Self)
        ensures
            copy@ == self@,
    {
        Operation { arg: self.arg.clone(), command: self.command }
    }
}

impl Clone for Invocation {
    fn clone(&self) -> (copy: Self)
        ensures
            copy@ == self@,
    {
        Invocation {
            trigger: self.trigger.clone(),
            command: self.command,
            values: clone_args(self.values.as_slice()),
        }
    }
}

impl Arg {
    pub fn new(name: String, kind: ArgType) -> (arg: Self)
        ensures
            arg@ == (ArgView { name: name@, kind }),
    {
        Self { name, kind }
    }

    pub fn get_name(&self) -> (name: String)
        ensures
            name@ == self@.name,
    {
        self.name.clone()
    }

    /// The role this token was classified as.
    pub fn get_kind(&self) -> (kind: ArgType)
        ensures
            kind == self@.kind,
    {
        self.kind
    }
}

impl Flag {
    pub fn new(flag: String, values: Vec<Arg>) -> (group: Self)
        ensures
            group@ == (FlagView { name: flag@, values: arg_views(values@) }),
    {
        Self { flag, values }
    }

    pub fn get_name(&self) -> (name: String)
        ensures
            name@ == self@.name,
    {
        self.flag.clone()
    }

    /// Appends copies of the given tokens to the values of this group.
    pub fn extend_from_slice(&mut self, slice: &[Arg])
        ensures
            final(self)@ == (FlagView {
                name: old(self)@.name,
                values: old(self)@.values + arg_views(slice@),
            }),
    {
        let mut i: usize = 0;
        proof {
            assert(arg_views(self.values@) =~= arg_views(old(self).values@) + arg_views(
                slice@.take(0),
            ));
        }
        while i < slice.len()
            invariant
                i <= slice.len(),
                self.flag@ == old(self).flag@,
                arg_views(self.values@) == arg_views(old(self).values@) + arg_views(
                    slice@.take(i as int),
                ),
            decreases slice.len() - i,
        {
            let item = slice[i].clone();
            proof {
                lemma_arg_views_push(self.values@, item);
                lemma_arg_views_push(slice@.take(i as int), slice@[i as int]);
                assert(slice@.take(i + 1) =~= slice@.take(i as int).push(slice@[i as int]));
                assert((arg_views(old(self).values@) + arg_views(slice@.take(i as int))).push(
                    item@,
                ) =~= arg_views(old(self).values@) + arg_views(slice@.take(i as int)).push(
                    item@,
                ));
            }
            self.values.push(item);
            i += 1;
        }
        proof {
            assert(slice@.take(i as int) =~= slice@);
        }
    }

    pub fn get_values(&self) -> (values: &[Arg])
        ensures
            arg_views(values@) == self@.values,
    {
        self.values.as_slice()
    }

    pub fn get_value_vec(&self) -> (values: Vec<Arg>)
        ensures
            arg_views(values@) == self@.values,
    {
        clone_args(self.values.as_slice())
    }
}

impl Operation {
    pub fn new(arg: String, command: Command) -> (operation: Self)
        ensures
            operation@ == (OperationView { trigger: arg@, command }),
    {
        Self { arg, command }
    }

    /// The trigger this operation is registered under.
    pub fn get_trigger(&self) -> (trigger: String)
        ensures
            trigger@ == self@.trigger,
    {
        self.arg.clone()
    }

    /// The command this operation starts.
    pub fn get_command(&self) -> (command: Command)
        ensures
            command == self@.command,
    {
        self.command
    }

    /// The first of `ops` that is registered under `name`.
    pub fn select(name: &str, ops: &[Operation]) -> (found: Option<Self>)
        ensures
            match select_operation(name@, operation_views(ops@)) {
                Some(operation) => found is Some && found->0@ == operation,
                None => found is None,
            },
    {
        let wanted = String::from_str(name);
        let ghost names = triggers(operation_views(ops@));
        let mut i: usize = 0;
        while i < ops.len()
            invariant
                i <= ops.len(),
                wanted@ == name@,
                names == triggers(operation_views(ops@)),
                forall|j: int| 0 <= j < i ==> names[j] != name@,
            decreases ops.len() - i,
        {
            if ops[i].arg == wanted {
                proof {
                    lemma_first_match_found(names, name@, i as int);
                }
                return Some(ops[i].clone());
            }
            i += 1;
        }
        proof {
            lemma_first_match_absent(names, name@);
        }
        None
    }
}

impl Invocation {
    /// The name of the group that caused this invocation.
    pub fn get_trigger(&self) -> (trigger: String)
        ensures
            trigger@ == self@.trigger,
    {
        self.trigger.clone()
    }

    /// The command to carry out.
    pub fn get_command(&self) -> (command: Command)
        ensures
            command == self@.command,
    {
        self.command
    }

    /// The value tokens of the group that caused this invocation.
    pub fn get_values(&self) -> (values: &[Arg])
        ensures
            arg_views(values@) == self@.values,
    {
        self.values.as_slice()
    }
}

impl Arguments {
    /// The classified tokens, in the order given.
    pub closed spec fn tokens(&self) -> Seq<ArgView> {
        arg_views(self.args@)
    }

    /// The groups, in the order in which they start.
    pub closed spec fn groups(&self) -> Seq<FlagView> {
        flag_views(self.flags@)
    }

    /// The registered operations, in the order of registration.
    pub closed spec fn registry(&self) -> Seq<OperationView> {
        operation_views(self.operations@)
    }

    /// Whether some operation is registered under `name`.
    pub open spec fn registered(&self, name: Seq<char>) -> bool {
        triggers(self.registry()).contains(name)
    }

    /// There is a command, every token has the role that its place and
    /// its text give it, the groups are those of the tokens, and no
    /// trigger is registered twice.
    pub open spec fn wf(&self) -> bool {
        &&& self.tokens().len() > 0
        &&& self.tokens() == classify(token_names(self.tokens()))
        &&& self.groups() == group_tokens(self.tokens())
        &&& triggers(self.registry()).no_duplicates()
    }

    /// Classifies and groups the arguments of the process, the program's
    /// name left out. The first argument is the command.
    pub fn new(argv: Vec<String>) -> (parsed: Self)
        requires
            argv@.len() > 0,
        ensures
            parsed.wf(),
            parsed.tokens() == classify(texts(argv@)),
            parsed.groups() == group_tokens(classify(texts(argv@))),
            parsed.registry() == Seq::<OperationView>::empty(),
    {
        let ghost tokens = classify(texts(argv@));
        let mut args: Vec<Arg> = Vec::new();
        let mut flags: Vec<Flag> = Vec::new();
        let mut name: String = argv[0].clone();
        let mut values: Vec<Arg> = Vec::new();
        let command = Arg::new(argv[0].clone(), ArgType::OPTION);
        proof {
            lemma_arg_views_push(args@, command);
            assert(arg_views(args@) =~= Seq::<ArgView>::empty());
            assert(arg_views(values@) =~= Seq::<ArgView>::empty());
            assert(flag_views(flags@) =~= Seq::<FlagView>::empty());
            assert(tokens.take(1) =~= Seq::<ArgView>::empty().push(command@));
            assert(tokens.take(1).drop_last() =~= Seq::<ArgView>::empty());
            assert(group_tokens(Seq::<ArgView>::empty()) =~= Seq::<FlagView>::empty());
        }
        args.push(command);
        let mut i: usize = 1;
        while i < argv.len()
            invariant
                1 <= i <= argv.len(),
                tokens == classify(texts(argv@)),
                arg_views(args@) == tokens.take(i as int),
                group_tokens(tokens.take(i as int)) == flag_views(flags@).push(
                    FlagView { name: name@, values: arg_views(values@) },
                ),
            decreases argv.len() - i,
        {
            let ghost open_group = FlagView { name: name@, values: arg_views(values@) };
            let ghost earlier = flag_views(flags@).push(open_group);
            let ghost token = tokens[i as int];
            proof {
                assert(tokens.take(i + 1).drop_last() =~= tokens.take(i as int));
                assert(tokens.take(i + 1) =~= tokens.take(i as int).push(token));
                assert(earlier.drop_last() =~= flag_views(flags@));
            }
            if has_flag_marker(argv[i].as_str()) {
                let arg = Arg::new(argv[i].clone(), ArgType::FLAG);
                let group = Flag::new(name, values);
                proof {
                    lemma_arg_views_push(args@, arg);
                    lemma_flag_views_push(flags@, group);
                }
                args.push(arg);
                flags.push(group);
                name = argv[i].clone();
                values = Vec::new();
                proof {
                    assert(arg_views(values@) =~= Seq::<ArgView>::empty());
                }
            } else {
                let arg = Arg::new(argv[i].clone(), ArgType::VALUE);
                let value = Arg::new(argv[i].clone(), ArgType::VALUE);
                proof {
                    lemma_arg_views_push(args@, arg);
                    lemma_arg_views_push(values@, value);
                }
                args.push(arg);
                values.push(value);
            }
            i += 1;
        }
        let group = Flag::new(name, values);
        proof {
            lemma_flag_views_push(flags@, group);
            assert(tokens.take(i as int) =~= tokens);
            assert(token_names(tokens) =~= texts(argv@));
            assert(triggers(operation_views(Seq::<Operation>::empty())) =~= Seq::<
                Seq<char>,
            >::empty());
        }
        flags.push(group);
        Self { args, operations: Vec::new(), flags }
    }

    /// Decides whether some operation is registered under `flag`.
    pub fn is_registered(&self, flag: &str) -> (b: bool)
        ensures
            b == self.registered(flag@),
    {
        let found = Operation::select(flag, self.operations.as_slice());
        proof {
            let names = triggers(self.registry());
            if names.contains(flag@) {
                let k = choose|k: int| 0 <= k < names.len() && names[k] == flag@;
                lemma_first_match_exists(names, flag@, k);
            }
        }
        found.is_some()
    }

    /// Registers `command` under the trigger `flag`, which must be new.
    pub fn invoke_callback(&mut self, flag: &str, command: Command)
        requires
            old(self).wf(),
            !old(self).registered(flag@),
        ensures
            final(self).wf(),
            final(self).tokens() == old(self).tokens(),
            final(self).groups() == old(self).groups(),
            final(self).registry() == old(self).registry().push(
                OperationView { trigger: flag@, command },
            ),
    {
        self.operations.push(Operation::new(String::from_str(flag), command));
        proof {
            let added = OperationView { trigger: flag@, command };
            assert(self.registry() =~= old(self).registry().push(added));
            assert(triggers(self.registry()) =~= triggers(old(self).registry()).push(flag@));
        }
    }

    /// The invocations that the command line asks for: one for each group
    /// whose name is a registered trigger, in the order of the groups.
    pub fn parse(&self) -> (invocations: Vec<Invocation>)
        ensures
            invocation_views(invocations@) == dispatch(self.groups(), self.registry()),
    {
        let mut invocations: Vec<Invocation> = Vec::new();
        let ghost groups = self.groups();
        let mut i: usize = 0;
        while i < self.flags.len()
            invariant
                i <= self.flags.len(),
                groups == self.groups(),
                invocation_views(invocations@) == dispatch(
                    groups.take(i as int),
                    self.registry(),
                ),
            decreases self.flags.len() - i,
        {
            proof {
                assert(groups.take(i + 1).drop_last() =~= groups.take(i as int));
                assert(groups.take(i + 1).last() == groups[i as int]);
            }
            let name = self.flags[i].get_name();
            match Operation::select(name.as_str(), self.operations.as_slice()) {
                Some(operation) => {
                    let ghost before = invocation_views(invocations@);
                    let invocation = Invocation {
                        trigger: name,
                        command: operation.command,
                        values: self.flags[i].get_value_vec(),
                    };
                    invocations.push(invocation);
                    proof {
                        assert(invocation_views(invocations@) =~= before.push(invocation@));
                    }
                },
                None => {},
            }
            i += 1;
        }
        proof {
            assert(groups.take(i as int) =~= groups);
        }
        invocations
    }

    /// The first group named `flag_name`.
    pub fn get_flag(&self, flag_name: &str) -> (found: Option<Flag>)
        ensures
            match first_match(group_names(self.groups()), flag_name@) {
                Some(i) => found is Some && found->0@ == self.groups()[i],
                None => found is None,
            },
    {
        match self.get_flag_index(flag_name) {
            Some(index) => {
                assert(self.groups()[index as int] == self.flags@[index as int]@);
                Some(self.flags[index].clone())
            },
            None => None,
        }
    }

    /// The position of the first group named `flag_name`.
    pub fn get_flag_index(&self, flag_name: &str) -> (found: Option<usize>)
        ensures
            match found {
                Some(index) => first_match(group_names(self.groups()), flag_name@) == Some(
                    index as int,
                ) && index < self.groups().len(),
                None => first_match(group_names(self.groups()), flag_name@) is None,
            },
    {
        let wanted = String::from_str(flag_name);
        let ghost names = group_names(self.groups());
        let mut i: usize = 0;
        while i < self.flags.len()
            invariant
                i <= self.flags.len(),
                wanted@ == flag_name@,
                names == group_names(self.groups()),
                forall|j: int| 0 <= j < i ==> names[j] != flag_name@,
            decreases self.flags.len() - i,
        {
            if self.flags[i].flag == wanted {
                proof {
                    lemma_first_match_found(names, flag_name@, i as int);
                }
                return Some(i);
            }
            i += 1;
        }
        proof {
            lemma_first_match_absent(names, flag_name@);
        }
        None
    }

    /// The first token whose text is `flag_name`.
    pub fn get_arg(&self, flag_name: &str) -> (found: Option<Arg>)
        ensures
            match first_match(token_names(self.tokens()), flag_name@) {
                Some(i) => found is Some && found->0@ == self.tokens()[i],
                None => found is None,
            },
    {
        let wanted = String::from_str(flag_name);
        let ghost names = token_names(self.tokens());
        let mut i: usize = 0;
        while i < self.args.len()
            invariant
                i <= self.args.len(),
                wanted@ == flag_name@,
                names == token_names(self.tokens()),
                forall|j: int| 0 <= j < i ==> names[j] != flag_name@,
            decreases self.args.len() - i,
        {
            if self.args[i].name == wanted {
                proof {
                    lemma_first_match_found(names, flag_name@, i as int);
                }
                return Some(self.args[i].clone());
            }
            i += 1;
        }
        proof {
            lemma_first_match_absent(names, flag_name@);
        }
        None
    }

    /// Whether some token, the command included, has the text `flag_name`.
    pub fn has_arg(&self, flag_name: &str) -> (b: bool)
        ensures
            b == token_names(self.tokens()).contains(flag_name@),
    {
        let found = self.get_arg(flag_name);
        proof {
            let names = token_names(self.tokens());
            if names.contains(flag_name@) {
                let k = choose|k: int| 0 <= k < names.len() && names[k] == flag_name@;
                lemma_first_match_exists(names, flag_name@, k);
            }
        }
        found.is_some()
    }

    /// All groups, the leading group first.
    pub fn get_groups(&self) -> (groups: Vec<Flag>)
        ensures
            flag_views(groups@) == self.groups(),
    {
        let mut groups: Vec<Flag> = Vec::new();
        let mut i: usize = 0;
        proof {
            assert(flag_views(groups@) =~= flag_views(self.flags@.take(0)));
        }
        while i < self.flags.len()
            invariant
                i <= self.flags.len(),
                flag_views(groups@) == flag_views(self.flags@.take(i as int)),
            decreases self.flags.len() - i,
        {
            let group = self.flags[i].clone();
            proof {
                lemma_flag_views_push(groups@, group);
                lemma_flag_views_push(self.flags@.take(i as int), self.flags@[i as int]);
                assert(self.flags@.take(i + 1) =~= self.flags@.take(i as int).push(
                    self.flags@[i as int],
                ));
            }
            groups.push(group);
            i += 1;
        }
        proof {
            assert(self.flags@.take(i as int) =~= self.flags@);
        }
        groups
    }

    /// All tokens, the command first.
    pub fn get_flags(&self) -> (tokens: Vec<Arg>)
        ensures
            arg_views(tokens@) == self.tokens(),
    {
        clone_args(self.args.as_slice())
    }
}

/// A command that stands alone makes one group, which owns no value.
pub proof fn lemma_command_alone(command: Seq<char>)
    ensures
        group_tokens(classify(seq![command])) == seq![
            FlagView { name: command, values: Seq::empty() },
        ],
{
    let tokens = classify(seq![command]);
    assert(group_tokens(tokens.drop_last()) =~= Seq::<FlagView>::empty());
    assert(group_tokens(tokens) =~= seq![FlagView { name: command, values: Seq::empty() }]);
}

/// The number of tokens of an argument vector that begin with the flag marker.
pub open spec fn count_flag_tokens(argv: Seq<Seq<char>>) -> nat
    decreases argv.len(),
{
    if argv.len() == 0 {
        0
    } else {
        count_flag_tokens(argv.drop_last()) + if is_flag_token(argv.last()) {
            1nat
        } else {
            0nat
        }
    }
}

/// The token that heads the group at `position`: the command for the first
/// group, a flag for every later one.
pub open spec fn group_key(position: int, name: Seq<char>) -> ArgView {
    ArgView { name, kind: if position == 0 { ArgType::OPTION } else { ArgType::FLAG } }
}

/// The tokens of a sequence of groups: each group written as its key
/// followed by its values, the groups one after another.
pub open spec fn ungroup(groups: Seq<FlagView>) -> Seq<ArgView>
    decreases groups.len(),
{
    if groups.len() == 0 {
        Seq::empty()
    } else {
        ungroup(groups.drop_last()).push(group_key(groups.len() - 1, groups.last().name))
            + groups.last().values
    }
}

/// How often `name` occurs in `names`.
pub open spec fn occurrences(names: Seq<Seq<char>>, name: Seq<char>) -> nat
    decreases names.len(),
{
    if names.len() == 0 {
        0
    } else {
        occurrences(names.drop_last(), name) + if names.last() == name {
            1nat
        } else {
            0nat
        }
    }
}

pub open spec fn invocation_triggers(invocations: Seq<InvocationView>) -> Seq<Seq<char>> {
    invocations.map_values(|i: InvocationView| i.trigger)
}

proof fn lemma_classify_drop_last(argv: Seq<Seq<char>>)
    requires
        argv.len() > 0,
    ensures
        classify(argv).drop_last() == classify(argv.drop_last()),
        classify(argv).last() == (ArgView {
            name: argv.last(),
            kind: token_kind(argv.len() - 1, argv.last()),
        }),
{
    assert(classify(argv).drop_last() =~= classify(argv.drop_last()));
}

proof fn lemma_group_count_from(argv: Seq<Seq<char>>)
    requires
        argv.len() > 0,
    ensures
        group_tokens(classify(argv)).len() == 1 + count_flag_tokens(argv) - count_flag_tokens(
            argv.take(1),
        ),
    decreases argv.len(),
{
    lemma_classify_drop_last(argv);
    if argv.len() == 1 {
        assert(argv.take(1) =~= argv);
        assert(group_tokens(classify(argv).drop_last()) =~= Seq::<FlagView>::empty());
    } else {
        lemma_group_count_from(argv.drop_last());
        assert(argv.drop_last().take(1) =~= argv.take(1));
    }
}

/// Grouping produces the leading group and one group for each token that
/// begins with the flag marker, provided the command itself does not.
pub proof fn lemma_one_group_per_flag(argv: Seq<Seq<char>>)
    requires
        argv.len() > 0,
        !is_flag_token(argv[0]),
    ensures
        group_tokens(classify(argv)).len() == 1 + count_flag_tokens(argv),
{
    lemma_group_count_from(argv);
    assert(argv.take(1).drop_last() =~= Seq::<Seq<char>>::empty());
    assert(count_flag_tokens(Seq::<Seq<char>>::empty()) == 0);
    assert(argv.take(1).last() == argv[0]);
}

proof fn lemma_ungroup_tokens(tokens: Seq<ArgView>)
    requires
        tokens.len() > 0,
        tokens[0].kind == ArgType::OPTION,
    ensures
        group_tokens(tokens).len() > 0,
        ungroup(group_tokens(tokens)) == tokens,
        forall|k: int, v: int|
            0 <= k < group_tokens(tokens).len() && 0 <= v < group_tokens(tokens)[k].values.len()
                ==> (#[trigger] group_tokens(tokens)[k].values[v]).kind != ArgType::FLAG,
    decreases tokens.len(),
{
    let groups = group_tokens(tokens);
    let token = tokens.last();
    if tokens.len() == 1 {
        assert(group_tokens(tokens.drop_last()) =~= Seq::<FlagView>::empty());
        assert(groups.drop_last() =~= Seq::<FlagView>::empty());
        assert(ungroup(groups.drop_last()) =~= Seq::<ArgView>::empty());
        assert(ungroup(groups) =~= tokens);
    } else {
        let earlier = group_tokens(tokens.drop_last());
        lemma_ungroup_tokens(tokens.drop_last());
        if token.kind == ArgType::FLAG {
            assert(groups.drop_last() =~= earlier);
            assert(ungroup(groups) =~= tokens);
        } else {
            assert(groups.drop_last() =~= earlier.drop_last());
            assert(ungroup(groups) =~= ungroup(earlier).push(token));
            assert(ungroup(groups) =~= tokens);
        }
    }
}

/// Every token belongs to exactly one group. Written out as its key followed
/// by its values, group after group, the grouping of an argument vector
/// gives back its token sequence; and no group holds a flag among its values.
pub proof fn lemma_groups_partition_tokens(argv: Seq<Seq<char>>)
    requires
        argv.len() > 0,
    ensures
        ungroup(group_tokens(classify(argv))) == classify(argv),
        forall|k: int, v: int|
            0 <= k < group_tokens(classify(argv)).len() && 0 <= v < group_tokens(
                classify(argv),
            )[k].values.len() ==> (#[trigger] group_tokens(classify(argv))[k].values[v]).kind
                == ArgType::VALUE,
{
    let tokens = classify(argv);
    lemma_ungroup_tokens(tokens);
    lemma_values_are_tokens(tokens);
}

/// The tokens that the groups hold: the command and the values of the
/// leading group, then the values of each later group.
pub open spec fn members(groups: Seq<FlagView>) -> Seq<ArgView>
    decreases groups.len(),
{
    if groups.len() == 0 {
        Seq::empty()
    } else if groups.len() == 1 {
        seq![group_key(0, groups[0].name)] + groups[0].values
    } else {
        members(groups.drop_last()) + groups.last().values
    }
}

/// The tokens of a sequence that are no flags, in their order.
pub open spec fn without_flags(tokens: Seq<ArgView>) -> Seq<ArgView>
    decreases tokens.len(),
{
    if tokens.len() == 0 {
        Seq::empty()
    } else if tokens.last().kind == ArgType::FLAG {
        without_flags(tokens.drop_last())
    } else {
        without_flags(tokens.drop_last()).push(tokens.last())
    }
}

proof fn lemma_members_of_groups(tokens: Seq<ArgView>)
    requires
        tokens.len() > 0,
        tokens[0].kind == ArgType::OPTION,
    ensures
        group_tokens(tokens).len() > 0,
        members(group_tokens(tokens)) == without_flags(tokens),
    decreases tokens.len(),
{
    let groups = group_tokens(tokens);
    let token = tokens.last();
    if tokens.len() == 1 {
        assert(group_tokens(tokens.drop_last()) =~= Seq::<FlagView>::empty());
        assert(without_flags(tokens.drop_last()) =~= Seq::<ArgView>::empty());
        assert(members(groups) =~= without_flags(tokens));
    } else {
        let earlier = group_tokens(tokens.drop_last());
        lemma_members_of_groups(tokens.drop_last());
        if token.kind == ArgType::FLAG {
            assert(groups.drop_last() =~= earlier);
            assert(members(groups) =~= members(earlier));
        } else {
            if earlier.len() > 1 {
                assert(groups.drop_last() =~= earlier.drop_last());
            }
            assert(members(groups) =~= members(earlier).push(token));
        }
    }
}

/// Taken together, the groups hold the tokens of the argument vector
/// without the flags that head them: the command first, then every value,
/// in the order given.
pub proof fn lemma_groups_hold_all_but_flags(argv: Seq<Seq<char>>)
    requires
        argv.len() > 0,
    ensures
        members(group_tokens(classify(argv))) == without_flags(classify(argv)),
{
    lemma_members_of_groups(classify(argv));
}

proof fn lemma_values_are_tokens(tokens: Seq<ArgView>)
    ensures
        forall|k: int, v: int|
            0 <= k < group_tokens(tokens).len() && 0 <= v < group_tokens(tokens)[k].values.len()
                ==> exists|i: int|
                0 < i < tokens.len() && tokens[i] == #[trigger] group_tokens(
                    tokens,
                )[k].values[v],
    decreases tokens.len(),
{
    if tokens.len() > 0 {
        let earlier = group_tokens(tokens.drop_last());
        let groups = group_tokens(tokens);
        lemma_values_are_tokens(tokens.drop_last());
        assert forall|k: int, v: int|
            0 <= k < groups.len() && 0 <= v < groups[k].values.len() implies exists|i: int|
            0 < i < tokens.len() && tokens[i] == #[trigger] groups[k].values[v] by {
            if tokens.len() == 1 || tokens.last().kind == ArgType::FLAG {
                if k < earlier.len() {
                    let i = choose|i: int|
                        0 < i < tokens.drop_last().len() && tokens.drop_last()[i]
                            == earlier[k].values[v];
                    assert(tokens[i] == groups[k].values[v]);
                }
            } else {
                if k < earlier.len() - 1 || v < earlier.last().values.len() {
                    let i = choose|i: int|
                        0 < i < tokens.drop_last().len() && tokens.drop_last()[i]
                            == earlier[k].values[v];
                    assert(tokens[i] == groups[k].values[v]);
                } else {
                    assert(tokens[tokens.len() - 1] == groups[k].values[v]);
                }
            }
        }
    }
}

proof fn lemma_selection_iff_registered(name: Seq<char>, operations: Seq<OperationView>)
    ensures
        select_operation(name, operations) is Some <==> triggers(operations).contains(name),
        select_operation(name, operations) is Some ==> select_operation(
            name,
            operations,
        )->0.trigger == name,
{
    let names = triggers(operations);
    if names.contains(name) {
        let k = choose|k: int| 0 <= k < names.len() && names[k] == name;
        lemma_first_match_exists(names, name, k);
    }
    if first_match(names, name) is Some {
        let i = first_match(names, name)->0;
        assert(is_first_match(names, name, i));
        assert(names[i] == name);
    }
}

/// Each registered trigger is invoked once for each group that bears its
/// name, and a name that is not registered is never invoked. Every
/// invocation carries the command that its trigger selects.
pub proof fn lemma_dispatch_once_per_group(
    groups: Seq<FlagView>,
    operations: Seq<OperationView>,
    name: Seq<char>,
)
    ensures
        occurrences(invocation_triggers(dispatch(groups, operations)), name) == if triggers(
            operations,
        ).contains(name) {
            occurrences(group_names(groups), name)
        } else {
            0
        },
        forall|k: int|
            0 <= k < dispatch(groups, operations).len() ==> select_operation(
                (#[trigger] dispatch(groups, operations)[k]).trigger,
                operations,
            ) is Some && select_operation(
                dispatch(groups, operations)[k].trigger,
                operations,
            )->0.command == dispatch(groups, operations)[k].command,
    decreases groups.len(),
{
    let invocations = dispatch(groups, operations);
    if groups.len() == 0 {
        assert(invocation_triggers(invocations) =~= Seq::<Seq<char>>::empty());
        assert(group_names(groups) =~= Seq::<Seq<char>>::empty());
    } else {
        let group = groups.last();
        let earlier = dispatch(groups.drop_last(), operations);
        lemma_dispatch_once_per_group(groups.drop_last(), operations, name);
        lemma_selection_iff_registered(group.name, operations);
        assert(group_names(groups).drop_last() =~= group_names(groups.drop_last()));
        assert(group_names(groups).last() == group.name);
        if select_operation(group.name, operations) is Some {
            assert(invocation_triggers(invocations).drop_last() =~= invocation_triggers(
                earlier,
            ));
            assert(invocation_triggers(invocations).last() == group.name);
        }
    }
}

/// A name that occurs somewhere has a first match.
pub proof fn lemma_first_match_exists(names: Seq<Seq<char>>, wanted: Seq<char>, k: int)
    requires
        0 <= k < names.len(),
        names[k] == wanted,
    ensures
        first_match(names, wanted) is Some,
        0 <= first_match(names, wanted)->0 <= k,
        is_first_match(names, wanted, first_match(names, wanted)->0),
    decreases k,
{
    if exists|j: int| 0 <= j < k && names[j] == wanted {
        let j = choose|j: int| 0 <= j < k && names[j] == wanted;
        lemma_first_match_exists(names, wanted, j);
    } else {
        assert(is_first_match(names, wanted, k));
        lemma_first_match_found(names, wanted, k);
    }
}

} // verus!
