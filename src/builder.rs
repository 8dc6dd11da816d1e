//! The application identity, the registry of subcommands, and dispatch.

use vstd::prelude::*;

verus! {

/// Name, description and version of an application.
pub struct App {
    /// name of the app
    pub name: String,
    /// description of the app
    pub desc: String,
    /// version of the app
    pub version: String,
}

/// The identity of an application as the contracts see it.
pub struct AppView {
    pub name: Seq<char>,
    pub desc: Seq<char>,
    pub version: Seq<char>,
}

impl View for App {
    type V = AppView;

    open spec fn view(&self) -> AppView {
        AppView { name: self.name@, desc: self.desc@, version: self.version@ }
    }
}

/// The identity after setting the name.
pub open spec fn named(a: AppView, name: Seq<char>) -> AppView {
    AppView { name: name, ..a }
}

/// The identity after setting the description.
pub open spec fn described(a: AppView, desc: Seq<char>) -> AppView {
    AppView { desc: desc, ..a }
}

/// The identity after setting the version.
pub open spec fn versioned(a: AppView, version: Seq<char>) -> AppView {
    AppView { version: version, ..a }
}

/// Setting the name, the description and the version, in any of the six
/// orders, gives an identity that holds exactly the three values set.
pub proof fn lemma_setters_in_any_order(a: AppView, n: Seq<char>, d: Seq<char>, v: Seq<char>)
    ensures
        ({
            let all = AppView { name: n, desc: d, version: v };
            &&& versioned(described(named(a, n), d), v) == all
            &&& described(versioned(named(a, n), v), d) == all
            &&& versioned(named(described(a, d), n), v) == all
            &&& named(versioned(described(a, d), v), n) == all
            &&& described(named(versioned(a, v), n), d) == all
            &&& named(described(versioned(a, v), d), n) == all
        }),
{
}

impl App {
    /// An application whose name, description and version are all empty.
    pub fn new() -> (app: App)
        ensures
            app@.name.len() == 0,
            app@.desc.len() == 0,
            app@.version.len() == 0,
    {
        App { name: String::new(), desc: String::new(), version: String::new() }
    }

    /// Sets the application's name; the other fields stay.
    pub fn name(&mut self, name: &str)
        ensures
            final(self)@ == named(old(self)@, name@),
    {
        self.name = name.to_owned();
    }

    /// Sets the application's description; the other fields stay.
    pub fn description(&mut self, desc: &str)
        ensures
            final(self)@ == described(old(self)@, desc@),
    {
        self.desc = desc.to_owned();
    }

    /// Sets the application's version; the other fields stay.
    pub fn version(&mut self, version: &str)
        ensures
            final(self)@ == versioned(old(self)@, version@),
    {
        self.version = version.to_owned();
    }
}

/// What a registered command does when it is dispatched.
pub enum Action<H> {
    /// The built-in command: print the application's version, exit with 0.
    ShowVersion,
    /// A handler of the host program: it receives the application and
    /// returns the exit status.
    Call(H),
}

/// One registered command, as the contracts see it: its name, its action and
/// its description.
pub type EntryView<H> = (Seq<char>, Action<H>, Seq<char>);

/// Registry of commands: each name with its action and description, in the
/// order in which the names were first registered.
pub struct Commands<H = fn(&App) -> u8> {
    entries: Vec<(String, Action<H>, String)>,
}

/// No two entries share a name.
pub open spec fn names_unique<H>(s: Seq<EntryView<H>>) -> bool {
    forall|i: int, j: int| 0 <= i < j < s.len() ==> s[i].0 != s[j].0
}

/// Whether an entry is registered under `name`.
pub open spec fn has_name<H>(s: Seq<EntryView<H>>, name: Seq<char>) -> bool {
    exists|i: int| 0 <= i < s.len() && s[i].0 == name
}

/// The position of the entry registered under `name`.
pub open spec fn position_of<H>(s: Seq<EntryView<H>>, name: Seq<char>) -> int
    recommends
        has_name(s, name),
{
    choose|i: int| 0 <= i < s.len() && s[i].0 == name
}

/// The action and description registered under `name`, if any.
pub open spec fn lookup<H>(s: Seq<EntryView<H>>, name: Seq<char>) -> Option<(Action<H>, Seq<char>)> {
    if has_name(s, name) {
        let i = position_of(s, name);
        Some((s[i].1, s[i].2))
    } else {
        None
    }
}

/// The registry after registering `action` and `desc` under `name`: an entry
/// of that name is replaced in place, otherwise the new one goes last.
pub open spec fn with_entry<H>(
    s: Seq<EntryView<H>>,
    name: Seq<char>,
    action: Action<H>,
    desc: Seq<char>,
) -> Seq<EntryView<H>> {
    if has_name(s, name) {
        s.update(position_of(s, name), (name, action, desc))
    } else {
        s.push((name, action, desc))
    }
}

/// Registering under `name` keeps names unique, makes `name` find the new
/// action and description, and leaves what every other name finds as it was.
pub proof fn lemma_lookup_after_register<H>(
    s: Seq<EntryView<H>>,
    name: Seq<char>,
    action: Action<H>,
    desc: Seq<char>,
)
    requires
        names_unique(s),
    ensures
        names_unique(with_entry(s, name, action, desc)),
        lookup(with_entry(s, name, action, desc), name) == Some((action, desc)),
        forall|other: Seq<char>|
            other != name ==> #[trigger] lookup(with_entry(s, name, action, desc), other)
                == lookup(s, other),
{
    let t = with_entry(s, name, action, desc);
    let p = if has_name(s, name) {
        position_of(s, name)
    } else {
        s.len() as int
    };
    assert(t[p].0 == name);
    assert(forall|k: int| 0 <= k < t.len() && k != p ==> #[trigger] t[k] == s[k]);
    assert(has_name(t, name));
    assert(position_of(t, name) == p);
    assert forall|other: Seq<char>| other != name implies #[trigger] lookup(t, other) == lookup(
        s,
        other,
    ) by {
        if has_name(s, other) {
            let q = position_of(s, other);
            assert(t[q] == s[q]);
            assert(has_name(t, other));
            assert(position_of(t, other) == q);
        } else {
            assert(!has_name(t, other));
        }
    }
}

/// Registering twice under one name is registering the second action and
/// description alone: the first leaves no trace, and dispatching the name
/// finds the second.
pub proof fn lemma_last_registration_wins<H>(
    s: Seq<EntryView<H>>,
    name: Seq<char>,
    first: Action<H>,
    first_desc: Seq<char>,
    second: Action<H>,
    second_desc: Seq<char>,
)
    requires
        names_unique(s),
    ensures
        with_entry(with_entry(s, name, first, first_desc), name, second, second_desc)
            == with_entry(s, name, second, second_desc),
        lookup(with_entry(with_entry(s, name, first, first_desc), name, second, second_desc), name)
            == Some((second, second_desc)),
{
    let t = with_entry(s, name, first, first_desc);
    lemma_lookup_after_register(s, name, first, first_desc);
    lemma_lookup_after_register(t, name, second, second_desc);
    if has_name(s, name) {
        let p = position_of(s, name);
        assert(t[p].0 == name);
        assert(position_of(t, name) == p);
        assert(with_entry(t, name, second, second_desc) =~= with_entry(s, name, second, second_desc));
    } else {
        let p = s.len() as int;
        assert(t[p].0 == name);
        assert(has_name(t, name));
        assert(position_of(t, name) == p);
        assert(with_entry(t, name, second, second_desc) =~= with_entry(s, name, second, second_desc));
    }
}

/// Width of the name column in the command listing.
pub const NAME_COLUMN: usize = 15;

/// `name` padded with spaces on the right to the width of the name column; a
/// longer name is kept whole.
pub open spec fn padded(name: Seq<char>) -> Seq<char> {
    if name.len() < NAME_COLUMN {
        name + Seq::new((NAME_COLUMN - name.len()) as nat, |_k: int| ' ')
    } else {
        name
    }
}

/// One line of the command listing.
pub open spec fn command_line(name: Seq<char>, desc: Seq<char>) -> Seq<char> {
    seq![' '] + padded(name) + desc + seq!['\n']
}

/// One line for each registered command, in registry order.
pub open spec fn command_listing<H>(s: Seq<EntryView<H>>) -> Seq<char>
    decreases s.len(),
{
    if s.len() == 0 {
        Seq::empty()
    } else {
        command_listing(s.drop_last()) + command_line(s.last().0, s.last().2)
    }
}

/// The usage block shown when no command is given.
pub open spec fn usage_text<H>(app: AppView, s: Seq<EntryView<H>>) -> Seq<char> {
    seq!['\n'] + app.name + seq![' '] + app.version
        + "\n\nUsage:\n command [options] [arguments]\n\nCommands:\n"@ + command_listing(s)
}

/// The error line for a command that is not registered.
pub open spec fn unknown_command_text(cmd: Seq<char>) -> Seq<char> {
    "error: unknown command '"@ + cmd + "'\n"@
}

/// What a dispatch ends in: the exit status, and the text for the standard
/// output and the standard error streams.
pub struct Outcome {
    pub code: u8,
    pub stdout: String,
    pub stderr: String,
}

impl<H> View for Commands<H> {
    type V = Seq<EntryView<H>>;

    closed spec fn view(&self) -> Seq<EntryView<H>> {
        Seq::new(
            self.entries@.len(),
            |i: int| (self.entries@[i].0@, self.entries@[i].1, self.entries@[i].2@),
        )
    }
}

impl<H: Fn(&App) -> u8> Commands<H> {
    /// Names are unique, and every handler accepts every application.
    pub open spec fn well_formed(&self) -> bool {
        &&& names_unique(self@)
        &&& forall|i: int, app: &App|
            0 <= i < self@.len() && self@[i].1 is Call ==> #[trigger] call_requires(
                self@[i].1->Call_0,
                (app,),
            )
    }

    /// A registry that holds the built-in `version` command alone.
    pub fn new() -> (c: Self)
        ensures
            c.well_formed(),
            c@ == seq![("version"@, Action::<H>::ShowVersion, "Display this application version"@)],
    {
        let mut c = Commands { entries: Vec::new() };
        c.insert_entry("version", Action::ShowVersion, "Display this application version");
        proof {
            assert(!has_name(Seq::<EntryView<H>>::empty(), "version"@));
            assert(c@ =~= seq![("version"@, Action::<H>::ShowVersion, "Display this application version"@)]);
        }
        c
    }

    /// Registers `handler` under the name `cmd` with the description `desc`.
    /// A command already registered under that name is replaced.
    pub fn add(&mut self, cmd: &str, handler: H, desc: &str)
        requires
            old(self).well_formed(),
            forall|app: &App| call_requires(handler, (app,)),
        ensures
            final(self).well_formed(),
            final(self)@ == with_entry(old(self)@, cmd@, Action::Call(handler), desc@),
    {
        self.insert_entry(cmd, Action::Call(handler), desc);
    }

    fn insert_entry(&mut self, cmd: &str, action: Action<H>, desc: &str)
        requires
            old(self).well_formed(),
            action is Call ==> forall|app: &App| call_requires(action->Call_0, (app,)),
        ensures
            final(self).well_formed(),
            final(self)@ == with_entry(old(self)@, cmd@, action, desc@),
    {
        let name: String = cmd.to_owned();
        let ghost s = self@;
        let pos = self.position(&name);
        match pos {
            Some(i) => {
                self.entries.set(i, (name, action, desc.to_owned()));
                proof {
                    assert(self@ =~= with_entry(s, cmd@, action, desc@));
                    assert forall|k: int, app: &App|
                        0 <= k < self@.len() && self@[k].1 is Call implies #[trigger] call_requires(
                            self@[k].1->Call_0,
                            (app,),
                        ) by {
                        if k != i {
                            assert(self@[k] == s[k]);
                        }
                    }
                }
            },
            None => {
                self.entries.push((name, action, desc.to_owned()));
                proof {
                    assert(self@ =~= with_entry(s, cmd@, action, desc@));
                    assert forall|k: int, app: &App|
                        0 <= k < self@.len() && self@[k].1 is Call implies #[trigger] call_requires(
                            self@[k].1->Call_0,
                            (app,),
                        ) by {
                        if k < s.len() {
                            assert(self@[k] == s[k]);
                        }
                    }
                }
            },
        }
    }

    /// The index of the entry named `name`, if there is one.
    fn position(&self, name: &String) -> (r: Option<usize>)
        requires
            names_unique(self@),
        ensures
            match r {
                Some(i) => i < self@.len() && has_name(self@, name@) && position_of(self@, name@) == i,
                None => !has_name(self@, name@),
            },
    {
        let n: usize = self.entries.len();
        let mut i: usize = 0;
        while i < n
            invariant
                n == self@.len(),
                i <= n,
                names_unique(self@),
                forall|k: int| 0 <= k < i ==> self@[k].0 != name@,
            decreases n - i,
        {
            if self.entries[i].0 == *name {
                proof {
                    assert(self@[i as int].0 == name@);
                    assert(has_name(self@, name@));
                }
                return Some(i);
            }
            i += 1;
        }
        None
    }
}

/// Appends `name` padded to the width of the name column.
fn push_padded(out: &mut String, name: &str)
    ensures
        final(out)@ == old(out)@ + padded(name@),
{
    let ghost start = out@;
    out.append(name);
    let n: usize = name.unicode_len();
    let mut k: usize = n;
    proof {
        reveal_strlit(" ");
        assert(out@ =~= start + name@ + Seq::new(0, |_j: int| ' '));
    }
    while k < NAME_COLUMN
        invariant
            n == name@.len(),
            n <= k,
            n < NAME_COLUMN ==> k <= NAME_COLUMN,
            n >= NAME_COLUMN ==> k == n,
            out@ =~= start + name@ + Seq::new((k - n) as nat, |_j: int| ' '),
        decreases NAME_COLUMN - k,
    {
        proof {
            reveal_strlit(" ");
        }
        out.append(" ");
        k += 1;
        assert(out@ =~= start + name@ + Seq::new((k - n) as nat, |_j: int| ' '));
    }
    if n < NAME_COLUMN {
        assert(k == NAME_COLUMN);
        assert(out@ =~= start + padded(name@));
    } else {
        assert(out@ =~= start + padded(name@));
    }
}

impl<H: Fn(&App) -> u8> Commands<H> {
    /// The usage block for `app` with this registry's commands.
    fn usage(&self, app: &App) -> (r: String)
        ensures
            r@ == usage_text(app@, self@),
    {
        proof {
            reveal_strlit(" ");
            reveal_strlit("\n");
        }
        let mut out = String::new();
        out.append("\n");
        out.append(app.name.as_str());
        out.append(" ");
        out.append(app.version.as_str());
        out.append("\n\nUsage:\n command [options] [arguments]\n\nCommands:\n");
        let ghost head = out@;
        assert(head =~= seq!['\n'] + app@.name + seq![' '] + app@.version
            + "\n\nUsage:\n command [options] [arguments]\n\nCommands:\n"@);
        let n: usize = self.entries.len();
        let mut i: usize = 0;
        assert(self@.take(0) =~= Seq::<EntryView<H>>::empty());
        while i < n
            invariant
                n == self@.len(),
                i <= n,
                out@ =~= head + command_listing(self@.take(i as int)),
            decreases n - i,
        {
            proof {
                reveal_strlit(" ");
                reveal_strlit("\n");
            }
            out.append(" ");
            push_padded(&mut out, self.entries[i].0.as_str());
            out.append(self.entries[i].2.as_str());
            out.append("\n");
            proof {
                let t = self@.take(i + 1);
                assert(t.drop_last() =~= self@.take(i as int));
                assert(t.last() == self@[i as int]);
            }
            i += 1;
        }
        assert(self@.take(n as int) =~= self@);
        out
    }
}

impl App {
    /// Dispatches `cmd` against `commands`.
    ///
    /// An empty `cmd` gives the usage block on the standard output and status
    /// 1. A name that is not registered gives the error line on the standard
    /// error and status 1. The built-in `version` command gives the version on
    /// the standard output and status 0. A handler is called with this
    /// application, and the status is what it returned.
    pub fn run<H: Fn(&App) -> u8>(&self, cmd: String, commands: Commands<H>) -> (r: Outcome)
        requires
            commands.well_formed(),
        ensures
            cmd@.len() == 0 ==> {
                &&& r.code == 1
                &&& r.stdout@ == usage_text(self@, commands@)
                &&& r.stderr@.len() == 0
            },
            cmd@.len() > 0 ==> match lookup(commands@, cmd@) {
                None => {
                    &&& r.code == 1
                    &&& r.stdout@.len() == 0
                    &&& r.stderr@ == unknown_command_text(cmd@)
                },
                Some((Action::ShowVersion, _)) => {
                    &&& r.code == 0
                    &&& r.stdout@ == self@.version + seq!['\n']
                    &&& r.stderr@.len() == 0
                },
                Some((Action::Call(h), _)) => {
                    &&& call_ensures(h, (self,), r.code)
                    &&& r.stdout@.len() == 0
                    &&& r.stderr@.len() == 0
                },
            },
    {
        if cmd.as_str().is_empty() {
            return Outcome { code: 1, stdout: commands.usage(self), stderr: String::new() };
        }
        match commands.position(&cmd) {
            None => {
                let mut err = String::new();
                err.append("error: unknown command '");
                err.append(cmd.as_str());
                err.append("'\n");
                Outcome { code: 1, stdout: String::new(), stderr: err }
            },
            Some(i) => match &commands.entries[i].1 {
                Action::ShowVersion => {
                    let mut out = self.version.clone();
                    proof {
                        reveal_strlit("\n");
                    }
                    out.append("\n");
                    Outcome { code: 0, stdout: out, stderr: String::new() }
                },
                Action::Call(h) => {
                    let code = h(self);
                    Outcome { code, stdout: String::new(), stderr: String::new() }
                },
            },
        }
    }
}

} // verus!
