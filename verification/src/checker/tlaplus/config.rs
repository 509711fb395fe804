//! TLC configuration: model-checking settings and their `.cfg` text.
use vstd::prelude::*;
use crate::named::{named_value, distinct_names, named_updated, set_named};
use crate::text::{decimal, signed_decimal, push_char, push_decimal, push_signed_decimal, push_str, empty_string, to_owned_string, decimal_string};

verus! {

/// `s` with each double quote preceded by a backslash.
pub open spec fn escape_quotes(s: Seq<char>) -> Seq<char>
    decreases s.len(),
{
    if s.len() == 0 {
        Seq::empty()
    } else {
        escape_quotes(s.drop_last()) + if s.last() == '"' { seq!['\\', '"'] } else { seq![s.last()] }
    }
}

/// The texts joined with `", "` between them.
pub open spec fn join_comma(parts: Seq<Seq<char>>) -> Seq<char>
    decreases parts.len(),
{
    if parts.len() == 0 {
        Seq::empty()
    } else if parts.len() == 1 {
        parts[0]
    } else {
        join_comma(parts.drop_last()) + ", "@ + parts.last()
    }
}

/// The views of a list of strings.
pub open spec fn string_views(v: Seq<String>) -> Seq<Seq<char>> {
    v.map_values(|s: String| s@)
}

/// A constant value for a TLC configuration.
#[derive(Debug)]
pub enum ConstantValue {
    /// An integer constant.
    Integer(i64),
    /// A boolean constant.
    Boolean(bool),
    /// A string constant.
    String(String),
    /// A model value (symbolic constant).
    ModelValue(String),
    /// A set of model values.
    ModelValueSet(Vec<String>),
    /// A TLA+ expression.
    Expression(String),
    /// A sequence.
    Sequence(Vec<ConstantValue>),
    /// A set.
    SetOf(Vec<ConstantValue>),
}

/// The TLA+ text of a constant value.
pub open spec fn tla_text(c: ConstantValue) -> Seq<char>
    decreases c, 1int,
{
    match c {
        ConstantValue::Integer(n) => signed_decimal(n as int),
        ConstantValue::Boolean(b) => if b { "TRUE"@ } else { "FALSE"@ },
        ConstantValue::String(s) => "\""@ + escape_quotes(s@) + "\""@,
        ConstantValue::ModelValue(name) => name@,
        ConstantValue::ModelValueSet(values) => "{ "@ + join_comma(string_views(values@)) + " }"@,
        ConstantValue::Expression(e) => e@,
        ConstantValue::Sequence(items) => "<< "@ + items_text(items@) + " >>"@,
        ConstantValue::SetOf(items) => "{ "@ + items_text(items@) + " }"@,
    }
}

/// The TLA+ texts of the items joined with `", "`.
pub open spec fn items_text(items: Seq<ConstantValue>) -> Seq<char>
    decreases items, 0int,
{
    if items.len() == 0 {
        Seq::empty()
    } else if items.len() == 1 {
        tla_text(items[0])
    } else {
        items_text(items.drop_last()) + ", "@ + tla_text(items.last())
    }
}

/// Appends `t` with each double quote preceded by a backslash.
fn push_escaped(s: &mut String, t: &str)
    ensures
        final(s)@ == old(s)@ + escape_quotes(t@),
{
    let n = t.unicode_len();
    let mut i: usize = 0;
    while i < n
        invariant
            n == t@.len(),
            i <= n,
            s@ == old(s)@ + escape_quotes(t@.take(i as int)),
        decreases n - i,
    {
        let c = t.get_char(i);
        if c == '"' {
            push_char(s, '\\');
            push_char(s, '"');
        } else {
            push_char(s, c);
        }
        proof {
            assert(t@.take(i as int + 1).drop_last() =~= t@.take(i as int));
            assert(s@ =~= old(s)@ + escape_quotes(t@.take(i as int + 1)));
        }
        i = i + 1;
    }
    assert(t@.take(n as int) =~= t@);
}

/// Appends the strings joined with `", "`.
fn push_joined(s: &mut String, parts: &Vec<String>)
    ensures
        final(s)@ == old(s)@ + join_comma(string_views(parts@)),
{
    let n = parts.len();
    let mut i: usize = 0;
    while i < n
        invariant
            n == parts@.len(),
            i <= n,
            s@ == old(s)@ + join_comma(string_views(parts@.take(i as int))),
        decreases n - i,
    {
        if i > 0 {
            push_str(s, ", ");
        }
        push_str(s, parts[i].as_str());
        proof {
            let v = string_views(parts@.take(i as int + 1));
            assert(v.drop_last() =~= string_views(parts@.take(i as int)));
            if i == 0 {
                assert(s@ =~= old(s)@ + join_comma(v));
            } else {
                assert(s@ =~= old(s)@ + join_comma(v));
            }
        }
        i = i + 1;
    }
    assert(parts@.take(n as int) =~= parts@);
}

impl ConstantValue {
    /// The TLA+ text: integers in decimal, `TRUE`/`FALSE`, strings quoted
    /// with inner quotes escaped, model values by name, sets as
    /// `{ a, b }` and sequences as `<< a, b >>`.
    pub fn to_tla_string(&self) -> (s: String)
        ensures
            s@ == tla_text(*self),
    {
        let mut s = empty_string();
        self.push_tla(&mut s);
        s
    }

    /// Appends the TLA+ text.
    fn push_tla(&self, s: &mut String)
        ensures
            final(s)@ == old(s)@ + tla_text(*self),
        decreases self, 1int,
    {
        match self {
            ConstantValue::Integer(n) => {
                push_signed_decimal(s, *n as i128);
            },
            ConstantValue::Boolean(b) => {
                if *b {
                    push_str(s, "TRUE");
                } else {
                    push_str(s, "FALSE");
                }
            },
            ConstantValue::String(t) => {
                push_str(s, "\"");
                push_escaped(s, t.as_str());
                push_str(s, "\"");
            },
            ConstantValue::ModelValue(name) => {
                push_str(s, name.as_str());
            },
            ConstantValue::ModelValueSet(values) => {
                push_str(s, "{ ");
                push_joined(s, values);
                push_str(s, " }");
            },
            ConstantValue::Expression(e) => {
                push_str(s, e.as_str());
            },
            ConstantValue::Sequence(items) => {
                push_str(s, "<< ");
                push_items(s, items);
                push_str(s, " >>");
            },
            ConstantValue::SetOf(items) => {
                push_str(s, "{ ");
                push_items(s, items);
                push_str(s, " }");
            },
        }
    }
}

/// Appends the TLA+ texts of the items joined with `", "`.
fn push_items(s: &mut String, items: &Vec<ConstantValue>)
    ensures
        final(s)@ == old(s)@ + items_text(items@),
    decreases items, 0int,
{
    let n = items.len();
    let mut i: usize = 0;
    while i < n
        invariant
            n == items@.len(),
            i <= n,
            s@ == old(s)@ + items_text(items@.take(i as int)),
        decreases n - i,
    {
        if i > 0 {
            push_str(s, ", ");
        }
        proof {
            assert(decreases_to!(items => items@));
            assert(decreases_to!(items@ => items@[i as int]));
        }
        items[i].push_tla(s);
        proof {
            let v = items@.take(i as int + 1);
            assert(v.drop_last() =~= items@.take(i as int));
            assert(s@ =~= old(s)@ + items_text(v));
        }
        i = i + 1;
    }
    assert(items@.take(n as int) =~= items@);
}

/// Configuration of TLC workers.
#[derive(Debug, Clone)]
pub struct TlcWorkerConfig {
    /// Number of worker threads.
    pub num_workers: u32,
    /// JVM heap size in megabytes.
    pub heap_size_mb: Option<u32>,
    /// Whether to use off-heap memory for states.
    pub use_off_heap: bool,
    /// Fingerprint function.
    pub fp_set: Option<u8>,
    /// Number of fingerprint workers.
    pub fp_workers: Option<u32>,
}

/// The JVM arguments of a worker configuration.
pub open spec fn jvm_args(w: TlcWorkerConfig) -> Seq<Seq<char>> {
    (match w.heap_size_mb {
        Some(h) => seq!["-Xmx"@ + decimal(h as nat) + "m"@, "-Xms"@ + decimal(h as nat) + "m"@],
        None => Seq::empty(),
    }) + (if w.use_off_heap { seq!["-XX:+UseG1GC"@, "-XX:MaxGCPauseMillis=50"@] } else { Seq::empty() })
}

/// The views of a list of strings equal the given texts.
pub open spec fn texts_are(v: Seq<String>, t: Seq<Seq<char>>) -> bool {
    &&& v.len() == t.len()
    &&& forall|i: int| 0 <= i < v.len() ==> (#[trigger] v[i])@ == t[i]
}

/// `prefix` then a decimal then `suffix`.
fn number_text(prefix: &str, n: u32, suffix: &str) -> (s: String)
    ensures
        s@ == prefix@ + decimal(n as nat) + suffix@,
{
    let mut s = to_owned_string(prefix);
    push_decimal(&mut s, n as u128);
    push_str(&mut s, suffix);
    s
}

impl TlcWorkerConfig {
    /// One worker, no heap size, no off-heap storage, no fingerprint
    /// settings.
    fn default_config() -> (r: Self)
        ensures
            r.num_workers == 1,
            r.heap_size_mb is None,
            !r.use_off_heap,
            r.fp_set is None,
            r.fp_workers is None,
    {
        TlcWorkerConfig { num_workers: 1, heap_size_mb: None, use_off_heap: false, fp_set: None, fp_workers: None }
    }

    /// The default configuration with `num_workers` workers.
    pub fn new(num_workers: u32) -> (r: Self)
        ensures
            r.num_workers == num_workers,
            r.heap_size_mb is None,
            !r.use_off_heap,
            r.fp_set is None,
            r.fp_workers is None,
    {
        TlcWorkerConfig { num_workers, ..TlcWorkerConfig::default_config() }
    }

    /// Sets the heap size.
    pub fn with_heap_size(self, size_mb: u32) -> (r: Self)
        ensures
            r == (TlcWorkerConfig { heap_size_mb: Some(size_mb), ..self }),
    {
        TlcWorkerConfig { heap_size_mb: Some(size_mb), ..self }
    }

    /// Enables or disables off-heap storage.
    pub fn with_off_heap(self, enable: bool) -> (r: Self)
        ensures
            r == (TlcWorkerConfig { use_off_heap: enable, ..self }),
    {
        TlcWorkerConfig { use_off_heap: enable, ..self }
    }

    /// Sets the fingerprint configuration.
    pub fn with_fp_config(self, fp_set: u8, fp_workers: u32) -> (r: Self)
        ensures
            r == (TlcWorkerConfig { fp_set: Some(fp_set), fp_workers: Some(fp_workers), ..self }),
    {
        TlcWorkerConfig { fp_set: Some(fp_set), fp_workers: Some(fp_workers), ..self }
    }

    /// The JVM arguments: `-Xmx<h>m` and `-Xms<h>m` for a heap size, and
    /// the G1 collector settings for off-heap storage.
    pub fn to_jvm_args(&self) -> (r: Vec<String>)
        ensures
            texts_are(r@, jvm_args(*self)),
    {
        let mut args: Vec<String> = Vec::new();
        match self.heap_size_mb {
            Some(h) => {
                args.push(number_text("-Xmx", h, "m"));
                args.push(number_text("-Xms", h, "m"));
            },
            None => {},
        }
        if self.use_off_heap {
            args.push(to_owned_string("-XX:+UseG1GC"));
            args.push(to_owned_string("-XX:MaxGCPauseMillis=50"));
        }
        proof {
            assert(texts_are(args@, jvm_args(*self)));
        }
        args
    }
}

impl Default for TlcWorkerConfig {
    fn default() -> (r: Self)
        ensures
            r.num_workers == 1,
            r.heap_size_mb is None,
            !r.use_off_heap,
            r.fp_set is None,
            r.fp_workers is None,
    {
        TlcWorkerConfig::default_config()
    }
}

/// A TLC configuration for model checking.
#[derive(Debug)]
pub struct TlcConfig {
    /// The specification (module) name.
    pub spec_name: String,
    /// The initial state predicate.
    pub init: Option<String>,
    /// The next-state relation.
    pub next: Option<String>,
    /// Invariants to check.
    pub invariants: Vec<String>,
    /// Temporal properties to check.
    pub properties: Vec<String>,
    /// State constraints.
    pub state_constraints: Vec<String>,
    /// Action constraints.
    pub action_constraints: Vec<String>,
    /// Constant definitions, by name, in the order first given.
    pub constants: Vec<(String, ConstantValue)>,
    /// Symmetry sets.
    pub symmetry: Vec<String>,
    /// View definition.
    pub view: Option<String>,
    /// Worker configuration.
    pub workers: TlcWorkerConfig,
    /// Whether to check for deadlocks.
    pub check_deadlock: bool,
    /// Depth limit for simulation mode.
    pub depth_limit: Option<u32>,
    /// Seed for random simulation.
    pub seed: Option<u64>,
    /// Additional TLC options.
    pub extra_options: Vec<String>,
}

/// One line `prefix item` per item.
pub open spec fn lines_text(prefix: Seq<char>, items: Seq<String>) -> Seq<char>
    decreases items.len(),
{
    if items.len() == 0 {
        Seq::empty()
    } else {
        lines_text(prefix, items.drop_last()) + prefix + items.last()@ + "\n"@
    }
}

/// The lines, then a blank line when there was any.
pub open spec fn section_text(prefix: Seq<char>, items: Seq<String>) -> Seq<char> {
    lines_text(prefix, items) + if items.len() > 0 { "\n"@ } else { Seq::<char>::empty() }
}

/// One line `  name = value` per constant.
pub open spec fn constant_lines(cs: Seq<(String, ConstantValue)>) -> Seq<char>
    decreases cs.len(),
{
    if cs.len() == 0 {
        Seq::empty()
    } else {
        constant_lines(cs.drop_last()) + "  "@ + cs.last().0@ + " = "@ + tla_text(cs.last().1) + "\n"@
    }
}

/// A line `prefix value` when the value is present.
pub open spec fn optional_line(prefix: Seq<char>, v: Option<String>) -> Seq<char> {
    match v {
        Some(x) => prefix + x@ + "\n"@,
        None => Seq::empty(),
    }
}

/// The `.cfg` text of a configuration.
pub open spec fn cfg_text(c: TlcConfig) -> Seq<char> {
    "\\* TLC Configuration File\n"@ + "\\* Generated for: "@ + c.spec_name@ + "\n\n"@
        + optional_line("INIT "@, c.init) + optional_line("NEXT "@, c.next) + "\n"@
        + section_text("INVARIANT "@, c.invariants@)
        + section_text("PROPERTY "@, c.properties@)
        + section_text("CONSTRAINT "@, c.state_constraints@)
        + section_text("ACTION_CONSTRAINT "@, c.action_constraints@)
        + (if c.constants@.len() > 0 { "CONSTANTS\n"@ + constant_lines(c.constants@) + "\n"@ } else { Seq::<char>::empty() })
        + section_text("SYMMETRY "@, c.symmetry@)
        + (match c.view { Some(v) => "VIEW "@ + v@ + "\n\n"@, None => Seq::<char>::empty() })
        + (if !c.check_deadlock { "CHECK_DEADLOCK FALSE\n\n"@ } else { Seq::<char>::empty() })
}

/// The TLC command-line arguments of a configuration.
pub open spec fn args_text(c: TlcConfig) -> Seq<Seq<char>> {
    seq!["-workers"@, decimal(c.workers.num_workers as nat)]
        + (if !c.check_deadlock { seq!["-deadlock"@] } else { Seq::empty() })
        + (match c.depth_limit { Some(d) => seq!["-depth"@, decimal(d as nat)], None => Seq::empty() })
        + (match c.seed { Some(x) => seq!["-seed"@, decimal(x as nat)], None => Seq::empty() })
        + (match c.workers.heap_size_mb { Some(h) => seq!["-Xmx"@ + decimal(h as nat) + "m"@], None => Seq::empty() })
        + string_views(c.extra_options@)
}

/// Appends one line `prefix item` per item, then a blank line when there
/// was any.
fn push_section(s: &mut String, prefix: &str, items: &Vec<String>)
    ensures
        final(s)@ == old(s)@ + section_text(prefix@, items@),
{
    let n = items.len();
    let mut i: usize = 0;
    while i < n
        invariant
            n == items@.len(),
            i <= n,
            s@ == old(s)@ + lines_text(prefix@, items@.take(i as int)),
        decreases n - i,
    {
        push_str(s, prefix);
        push_str(s, items[i].as_str());
        push_str(s, "\n");
        proof {
            assert(items@.take(i as int + 1).drop_last() =~= items@.take(i as int));
            assert(s@ =~= old(s)@ + lines_text(prefix@, items@.take(i as int + 1)));
        }
        i = i + 1;
    }
    assert(items@.take(n as int) =~= items@);
    if n > 0 {
        push_str(s, "\n");
    }
    assert(s@ =~= old(s)@ + section_text(prefix@, items@));
}

impl TlcConfig {
    /// Well formed: constant names are distinct.
    pub open spec fn wf(self) -> bool {
        distinct_names(self.constants@)
    }

    /// A configuration with default settings: nothing set, default
    /// workers, deadlock checking on.
    pub fn new(spec_name: &str) -> (r: Self)
        ensures
            r.wf(),
            r.spec_name@ == spec_name@,
            r.init is None && r.next is None && r.view is None,
            r.invariants@.len() == 0 && r.properties@.len() == 0,
            r.state_constraints@.len() == 0 && r.action_constraints@.len() == 0,
            r.constants@.len() == 0 && r.symmetry@.len() == 0 && r.extra_options@.len() == 0,
            r.workers.num_workers == 1 && r.workers.heap_size_mb is None && !r.workers.use_off_heap,
            r.workers.fp_set is None && r.workers.fp_workers is None,
            r.check_deadlock,
            r.depth_limit is None && r.seed is None,
    {
        TlcConfig {
            spec_name: to_owned_string(spec_name),
            init: None,
            next: None,
            invariants: Vec::new(),
            properties: Vec::new(),
            state_constraints: Vec::new(),
            action_constraints: Vec::new(),
            constants: Vec::new(),
            symmetry: Vec::new(),
            view: None,
            workers: TlcWorkerConfig::default_config(),
            check_deadlock: true,
            depth_limit: None,
            seed: None,
            extra_options: Vec::new(),
        }
    }

    /// A builder for a configuration.
    pub fn builder(spec_name: &str) -> (r: TlcConfigBuilder)
        ensures
            r.config.wf(),
            r.config.spec_name@ == spec_name@,
            r.config.init is None && r.config.next is None && r.config.view is None,
            r.config.invariants@.len() == 0 && r.config.properties@.len() == 0,
            r.config.state_constraints@.len() == 0 && r.config.action_constraints@.len() == 0,
            r.config.constants@.len() == 0 && r.config.symmetry@.len() == 0 && r.config.extra_options@.len() == 0,
            r.config.workers.num_workers == 1 && r.config.workers.heap_size_mb is None,
            r.config.check_deadlock,
            r.config.depth_limit is None && r.config.seed is None,
    {
        TlcConfigBuilder::new(spec_name)
    }

    /// The `.cfg` file text.
    pub fn to_cfg_string(&self) -> (s: String)
        ensures
            s@ == cfg_text(*self),
    {
        let mut s = empty_string();
        push_str(&mut s, "\\* TLC Configuration File\n");
        push_str(&mut s, "\\* Generated for: ");
        push_str(&mut s, self.spec_name.as_str());
        push_str(&mut s, "\n\n");
        let ghost s1 = s@;
        match &self.init {
            Some(init) => {
                push_str(&mut s, "INIT ");
                push_str(&mut s, init.as_str());
                push_str(&mut s, "\n");
            },
            None => {},
        }
        let ghost s2 = s@;
        assert(s2 =~= s1 + optional_line("INIT "@, self.init));
        match &self.next {
            Some(next) => {
                push_str(&mut s, "NEXT ");
                push_str(&mut s, next.as_str());
                push_str(&mut s, "\n");
            },
            None => {},
        }
        let ghost s3 = s@;
        assert(s3 =~= s2 + optional_line("NEXT "@, self.next));
        push_str(&mut s, "\n");
        push_section(&mut s, "INVARIANT ", &self.invariants);
        push_section(&mut s, "PROPERTY ", &self.properties);
        push_section(&mut s, "CONSTRAINT ", &self.state_constraints);
        push_section(&mut s, "ACTION_CONSTRAINT ", &self.action_constraints);
        let ghost s4 = s@;
        let n = self.constants.len();
        if n > 0 {
            push_str(&mut s, "CONSTANTS\n");
            let ghost s5 = s@;
            let mut i: usize = 0;
            while i < n
                invariant
                    n == self.constants@.len(),
                    i <= n,
                    s@ == s5 + constant_lines(self.constants@.take(i as int)),
                decreases n - i,
            {
                push_str(&mut s, "  ");
                push_str(&mut s, self.constants[i].0.as_str());
                push_str(&mut s, " = ");
                let v = self.constants[i].1.to_tla_string();
                push_str(&mut s, v.as_str());
                push_str(&mut s, "\n");
                proof {
                    assert(self.constants@.take(i as int + 1).drop_last() =~= self.constants@.take(i as int));
                    assert(s@ =~= s5 + constant_lines(self.constants@.take(i as int + 1)));
                }
                i = i + 1;
            }
            assert(self.constants@.take(n as int) =~= self.constants@);
            push_str(&mut s, "\n");
        }
        let ghost s6 = s@;
        assert(s6 =~= s4 + (if self.constants@.len() > 0 { "CONSTANTS\n"@ + constant_lines(self.constants@) + "\n"@ } else { Seq::<char>::empty() }));
        push_section(&mut s, "SYMMETRY ", &self.symmetry);
        let ghost s7 = s@;
        match &self.view {
            Some(v) => {
                push_str(&mut s, "VIEW ");
                push_str(&mut s, v.as_str());
                push_str(&mut s, "\n\n");
            },
            None => {},
        }
        let ghost s8 = s@;
        assert(s8 =~= s7 + (match self.view { Some(v) => "VIEW "@ + v@ + "\n\n"@, None => Seq::<char>::empty() }));
        if !self.check_deadlock {
            push_str(&mut s, "CHECK_DEADLOCK FALSE\n\n");
        }
        assert(s@ =~= cfg_text(*self));
        s
    }

    /// The TLC command-line arguments: worker count, `-deadlock` when
    /// deadlock checking is off, depth limit, seed, heap size, then the
    /// extra options.
    pub fn to_args(&self) -> (r: Vec<String>)
        ensures
            texts_are(r@, args_text(*self)),
    {
        let mut args: Vec<String> = Vec::new();
        args.push(to_owned_string("-workers"));
        args.push(decimal_string(self.workers.num_workers as u128));
        if !self.check_deadlock {
            args.push(to_owned_string("-deadlock"));
        }
        match self.depth_limit {
            Some(d) => {
                args.push(to_owned_string("-depth"));
                args.push(decimal_string(d as u128));
            },
            None => {},
        }
        match self.seed {
            Some(x) => {
                args.push(to_owned_string("-seed"));
                args.push(decimal_string(x as u128));
            },
            None => {},
        }
        match self.workers.heap_size_mb {
            Some(h) => {
                args.push(number_text("-Xmx", h, "m"));
            },
            None => {},
        }
        let ghost a0 = args@;
        let n = self.extra_options.len();
        let mut i: usize = 0;
        while i < n
            invariant
                n == self.extra_options@.len(),
                i <= n,
                args@.len() == a0.len() + i,
                forall|j: int| 0 <= j < a0.len() ==> (#[trigger] args@[j]) == a0[j],
                forall|j: int| 0 <= j < i ==> (#[trigger] args@[a0.len() + j])@ == self.extra_options@[j]@,
            decreases n - i,
        {
            args.push(to_owned_string(self.extra_options[i].as_str()));
            i = i + 1;
        }
        proof {
            let t = args_text(*self);
            assert forall|j: int| 0 <= j < args@.len() implies #[trigger] string_views(args@)[j] == t[j] by {
                if j >= a0.len() {
                    assert(args@[a0.len() + (j - a0.len())]@ == self.extra_options@[j - a0.len()]@);
                }
            }
            assert(string_views(args@) =~= t);
            assert forall|i: int| 0 <= i < args@.len() implies (#[trigger] args@[i])@ == t[i] by {
                assert(string_views(args@)[i] == args@[i]@);
            }
        }
        args
    }
}

/// A builder for TLC configurations.
#[derive(Debug)]
pub struct TlcConfigBuilder {
    /// The configuration being built.
    pub config: TlcConfig,
}

impl TlcConfigBuilder {
    /// A builder starting from the default configuration.
    pub fn new(spec_name: &str) -> (r: Self)
        ensures
            r.config.wf(),
            r.config.spec_name@ == spec_name@,
            r.config.init is None && r.config.next is None && r.config.view is None,
            r.config.invariants@.len() == 0 && r.config.properties@.len() == 0,
            r.config.state_constraints@.len() == 0 && r.config.action_constraints@.len() == 0,
            r.config.constants@.len() == 0 && r.config.symmetry@.len() == 0 && r.config.extra_options@.len() == 0,
            r.config.workers.num_workers == 1 && r.config.workers.heap_size_mb is None,
            r.config.check_deadlock,
            r.config.depth_limit is None && r.config.seed is None,
    {
        TlcConfigBuilder { config: TlcConfig::new(spec_name) }
    }

    /// Sets the initial state predicate.
    pub fn with_init(self, init: &str) -> (r: Self)
        ensures
            r.config.init matches Some(x) && x@ == init@,
            r.config == (TlcConfig { init: r.config.init, ..self.config }),
    {
        let mut b = self;
        b.config.init = Some(to_owned_string(init));
        b
    }

    /// Sets the next-state relation.
    pub fn with_next(self, next: &str) -> (r: Self)
        ensures
            r.config.next matches Some(x) && x@ == next@,
            r.config == (TlcConfig { next: r.config.next, ..self.config }),
    {
        let mut b = self;
        b.config.next = Some(to_owned_string(next));
        b
    }

    /// Adds an invariant.
    pub fn with_invariant(self, inv: &str) -> (r: Self)
        ensures
            string_views(r.config.invariants@) == string_views(self.config.invariants@).push(inv@),
            r.config == (TlcConfig { invariants: r.config.invariants, ..self.config }),
    {
        let mut b = self;
        b.config.invariants.push(to_owned_string(inv));
        proof {
            assert(string_views(b.config.invariants@) =~= string_views(self.config.invariants@).push(inv@));
        }
        b
    }

    /// Adds invariants.
    pub fn with_invariants(self, invariants: &[&str]) -> (r: Self)
        ensures
            string_views(r.config.invariants@) == string_views(self.config.invariants@) + strs_views(invariants@),
            r.config == (TlcConfig { invariants: r.config.invariants, ..self.config }),
    {
        let mut b = self;
        push_strs(&mut b.config.invariants, invariants);
        b
    }

    /// Adds a temporal property.
    pub fn with_property(self, property: &str) -> (r: Self)
        ensures
            string_views(r.config.properties@) == string_views(self.config.properties@).push(property@),
            r.config == (TlcConfig { properties: r.config.properties, ..self.config }),
    {
        let mut b = self;
        b.config.properties.push(to_owned_string(property));
        proof {
            assert(string_views(b.config.properties@) =~= string_views(self.config.properties@).push(property@));
        }
        b
    }

    /// Adds temporal properties.
    pub fn with_properties(self, properties: &[&str]) -> (r: Self)
        ensures
            string_views(r.config.properties@) == string_views(self.config.properties@) + strs_views(properties@),
            r.config == (TlcConfig { properties: r.config.properties, ..self.config }),
    {
        let mut b = self;
        push_strs(&mut b.config.properties, properties);
        b
    }

    /// Adds a state constraint.
    pub fn with_state_constraint(self, constraint: &str) -> (r: Self)
        ensures
            string_views(r.config.state_constraints@) == string_views(self.config.state_constraints@).push(constraint@),
            r.config == (TlcConfig { state_constraints: r.config.state_constraints, ..self.config }),
    {
        let mut b = self;
        b.config.state_constraints.push(to_owned_string(constraint));
        proof {
            assert(string_views(b.config.state_constraints@) =~= string_views(self.config.state_constraints@).push(constraint@));
        }
        b
    }

    /// Adds an action constraint.
    pub fn with_action_constraint(self, constraint: &str) -> (r: Self)
        ensures
            string_views(r.config.action_constraints@) == string_views(self.config.action_constraints@).push(constraint@),
            r.config == (TlcConfig { action_constraints: r.config.action_constraints, ..self.config }),
    {
        let mut b = self;
        b.config.action_constraints.push(to_owned_string(constraint));
        proof {
            assert(string_views(b.config.action_constraints@) =~= string_views(self.config.action_constraints@).push(constraint@));
        }
        b
    }

    /// Binds a constant to a string value.
    pub fn with_constant(self, name: &str, value: &str) -> (r: Self)
        requires
            self.config.wf(),
        ensures
            r.config.wf(),
            named_value(r.config.constants@, name@) matches Some(ConstantValue::String(v)) && v@ == value@,
            forall|q: Seq<char>| q != name@ ==> #[trigger] named_value(r.config.constants@, q) == named_value(self.config.constants@, q),
            r.config == (TlcConfig { constants: r.config.constants, ..self.config }),
    {
        let mut b = self;
        set_named(&mut b.config.constants, to_owned_string(name), ConstantValue::String(to_owned_string(value)));
        b
    }

    /// Binds a constant to an integer.
    pub fn with_constant_int(self, name: &str, value: i64) -> (r: Self)
        requires
            self.config.wf(),
        ensures
            named_updated(self.config.constants@, r.config.constants@, name@, ConstantValue::Integer(value)),
            r.config == (TlcConfig { constants: r.config.constants, ..self.config }),
    {
        let mut b = self;
        set_named(&mut b.config.constants, to_owned_string(name), ConstantValue::Integer(value));
        b
    }

    /// Binds a constant to a boolean.
    pub fn with_constant_bool(self, name: &str, value: bool) -> (r: Self)
        requires
            self.config.wf(),
        ensures
            named_updated(self.config.constants@, r.config.constants@, name@, ConstantValue::Boolean(value)),
            r.config == (TlcConfig { constants: r.config.constants, ..self.config }),
    {
        let mut b = self;
        set_named(&mut b.config.constants, to_owned_string(name), ConstantValue::Boolean(value));
        b
    }

    /// Binds a constant to the model value of its own name.
    pub fn with_model_value(self, name: &str) -> (r: Self)
        requires
            self.config.wf(),
        ensures
            r.config.wf(),
            named_value(r.config.constants@, name@) matches Some(ConstantValue::ModelValue(v)) && v@ == name@,
            forall|q: Seq<char>| q != name@ ==> #[trigger] named_value(r.config.constants@, q) == named_value(self.config.constants@, q),
            r.config == (TlcConfig { constants: r.config.constants, ..self.config }),
    {
        let mut b = self;
        set_named(&mut b.config.constants, to_owned_string(name), ConstantValue::ModelValue(to_owned_string(name)));
        b
    }

    /// Binds a constant to a set of model values.
    pub fn with_model_value_set(self, name: &str, values: &[&str]) -> (r: Self)
        requires
            self.config.wf(),
        ensures
            r.config.wf(),
            named_value(r.config.constants@, name@) matches Some(ConstantValue::ModelValueSet(v))
                && string_views(v@) == strs_views(values@),
            forall|q: Seq<char>| q != name@ ==> #[trigger] named_value(r.config.constants@, q) == named_value(self.config.constants@, q),
            r.config == (TlcConfig { constants: r.config.constants, ..self.config }),
    {
        let mut vs: Vec<String> = Vec::new();
        push_strs(&mut vs, values);
        assert(string_views(vs@) =~= strs_views(values@));
        let mut b = self;
        set_named(&mut b.config.constants, to_owned_string(name), ConstantValue::ModelValueSet(vs));
        b
    }

    /// Adds a symmetry set.
    pub fn with_symmetry(self, symmetry: &str) -> (r: Self)
        ensures
            string_views(r.config.symmetry@) == string_views(self.config.symmetry@).push(symmetry@),
            r.config == (TlcConfig { symmetry: r.config.symmetry, ..self.config }),
    {
        let mut b = self;
        b.config.symmetry.push(to_owned_string(symmetry));
        proof {
            assert(string_views(b.config.symmetry@) =~= string_views(self.config.symmetry@).push(symmetry@));
        }
        b
    }

    /// Sets the view definition.
    pub fn with_view(self, view: &str) -> (r: Self)
        ensures
            r.config.view matches Some(x) && x@ == view@,
            r.config == (TlcConfig { view: r.config.view, ..self.config }),
    {
        let mut b = self;
        b.config.view = Some(to_owned_string(view));
        b
    }

    /// Sets the number of workers.
    pub fn with_workers(self, num_workers: u32) -> (r: Self)
        ensures
            r.config == (TlcConfig { workers: TlcWorkerConfig { num_workers, ..self.config.workers }, ..self.config }),
    {
        let mut b = self;
        b.config.workers.num_workers = num_workers;
        b
    }

    /// Sets the heap size in megabytes.
    pub fn with_heap_size(self, size_mb: u32) -> (r: Self)
        ensures
            r.config == (TlcConfig { workers: TlcWorkerConfig { heap_size_mb: Some(size_mb), ..self.config.workers }, ..self.config }),
    {
        let mut b = self;
        b.config.workers.heap_size_mb = Some(size_mb);
        b
    }

    /// Sets the worker configuration.
    pub fn with_worker_config(self, config: TlcWorkerConfig) -> (r: Self)
        ensures
            r.config == (TlcConfig { workers: config, ..self.config }),
    {
        let mut b = self;
        b.config.workers = config;
        b
    }

    /// Enables or disables deadlock checking.
    pub fn check_deadlock(self, check: bool) -> (r: Self)
        ensures
            r.config == (TlcConfig { check_deadlock: check, ..self.config }),
    {
        let mut b = self;
        b.config.check_deadlock = check;
        b
    }

    /// Sets the depth limit for simulation mode.
    pub fn with_depth_limit(self, depth: u32) -> (r: Self)
        ensures
            r.config == (TlcConfig { depth_limit: Some(depth), ..self.config }),
    {
        let mut b = self;
        b.config.depth_limit = Some(depth);
        b
    }

    /// Sets the random seed.
    pub fn with_seed(self, seed: u64) -> (r: Self)
        ensures
            r.config == (TlcConfig { seed: Some(seed), ..self.config }),
    {
        let mut b = self;
        b.config.seed = Some(seed);
        b
    }

    /// Adds an extra TLC command-line option.
    pub fn with_extra_option(self, option: &str) -> (r: Self)
        ensures
            string_views(r.config.extra_options@) == string_views(self.config.extra_options@).push(option@),
            r.config == (TlcConfig { extra_options: r.config.extra_options, ..self.config }),
    {
        let mut b = self;
        b.config.extra_options.push(to_owned_string(option));
        proof {
            assert(string_views(b.config.extra_options@) =~= string_views(self.config.extra_options@).push(option@));
        }
        b
    }

    /// The configuration.
    pub fn build(self) -> (r: TlcConfig)
        ensures
            r == self.config,
    {
        self.config
    }
}

/// The views of a list of string slices.
pub open spec fn strs_views(v: Seq<&str>) -> Seq<Seq<char>> {
    v.map_values(|s: &str| s@)
}

/// Appends owned copies of the slices.
fn push_strs(v: &mut Vec<String>, items: &[&str])
    ensures
        string_views(final(v)@) == string_views(old(v)@) + strs_views(items@),
{
    let ghost v0 = v@;
    let n = items.len();
    let mut i: usize = 0;
    while i < n
        invariant
            n == items@.len(),
            i <= n,
            v@.len() == v0.len() + i,
            forall|j: int| 0 <= j < v0.len() ==> (#[trigger] v@[j]) == v0[j],
            forall|j: int| 0 <= j < i ==> (#[trigger] v@[v0.len() + j])@ == items@[j]@,
        decreases n - i,
    {
        v.push(to_owned_string(items[i]));
        i = i + 1;
    }
    proof {
        assert forall|j: int| 0 <= j < v@.len() implies #[trigger] string_views(v@)[j] == (string_views(v0) + strs_views(items@))[j] by {
            if j >= v0.len() {
                assert(v@[v0.len() + (j - v0.len())]@ == items@[j - v0.len()]@);
            }
        }
        assert(string_views(v@) =~= string_views(v0) + strs_views(items@));
    }
}

/// The text of a trace-checking TLA+ module for `module_name` that
/// extends `spec_module` and validates the trace `trace_variable`.
pub open spec fn trace_checker_text(module_name: Seq<char>, spec_module: Seq<char>, trace_variable: Seq<char>) -> Seq<char> {
    "---- MODULE "@ + module_name + " ----\nEXTENDS "@ + spec_module
        + ", TLC, Sequences, Naturals\n\n\\* Trace to validate\nVARIABLE _trace_index\n\n\\* The trace data (imported)\n_Trace == "@
        + trace_variable
        + "\n\n\\* Initial state: start at beginning of trace\n_TraceInit ==\n    /\\ _trace_index = 1\n    /\\ Init\n\n\\* Next state: advance through trace\n_TraceNext ==\n    /\\ _trace_index < Len(_Trace)\n    /\\ _trace_index' = _trace_index + 1\n    /\\ Next\n    /\\ \\* Match the trace state\n       LET expected == _Trace[_trace_index'] IN\n       \\A var \\in DOMAIN expected :\n           TLCGet(var) = expected[var]\n\n\\* Trace validation spec\n_TraceSpec == _TraceInit /\\ [][_TraceNext]__<<_trace_index, vars>>\n\n====\n"@
}

/// A trace-checking TLA+ module that imports the trace and validates it
/// step by step against the specification.
pub fn generate_trace_checker_module(module_name: &str, spec_module: &str, trace_variable: &str) -> (s: String)
    ensures
        s@ == trace_checker_text(module_name@, spec_module@, trace_variable@),
{
    let mut s = to_owned_string("---- MODULE ");
    push_str(&mut s, module_name);
    push_str(&mut s, " ----\nEXTENDS ");
    push_str(&mut s, spec_module);
    push_str(&mut s, ", TLC, Sequences, Naturals\n\n\\* Trace to validate\nVARIABLE _trace_index\n\n\\* The trace data (imported)\n_Trace == ");
    push_str(&mut s, trace_variable);
    push_str(&mut s, "\n\n\\* Initial state: start at beginning of trace\n_TraceInit ==\n    /\\ _trace_index = 1\n    /\\ Init\n\n\\* Next state: advance through trace\n_TraceNext ==\n    /\\ _trace_index < Len(_Trace)\n    /\\ _trace_index' = _trace_index + 1\n    /\\ Next\n    /\\ \\* Match the trace state\n       LET expected == _Trace[_trace_index'] IN\n       \\A var \\in DOMAIN expected :\n           TLCGet(var) = expected[var]\n\n\\* Trace validation spec\n_TraceSpec == _TraceInit /\\ [][_TraceNext]__<<_trace_index, vars>>\n\n====\n");
    s
}

/// `line` stands in `text` as a whole line: at the start of the text or
/// after a line break, and followed by a line break.
pub open spec fn has_line(text: Seq<char>, line: Seq<char>) -> bool {
    exists|i: int| #![trigger text.subrange(i, i + line.len())]
        0 <= i && i + line.len() < text.len()
        && text.subrange(i, i + line.len()) == line
        && text[i + line.len()] == '\n'
        && (i == 0 || text[i - 1] == '\n')
}

/// Text that is empty or ends with a line break.
pub open spec fn ends_line(t: Seq<char>) -> bool {
    t.len() == 0 || t.last() == '\n'
}

/// A line stays a line when text ending a line comes before it and any
/// text after it.
proof fn lemma_line_in_context(x: Seq<char>, t: Seq<char>, y: Seq<char>, line: Seq<char>)
    requires
        has_line(t, line),
        ends_line(x),
    ensures
        has_line(x + t + y, line),
{
    let i = choose|i: int| #![trigger t.subrange(i, i + line.len())]
        0 <= i && i + line.len() < t.len()
        && t.subrange(i, i + line.len()) == line
        && t[i + line.len()] == '\n'
        && (i == 0 || t[i - 1] == '\n');
    let u = x + t + y;
    let j = x.len() + i;
    assert(u.subrange(j, j + line.len()) =~= t.subrange(i, i + line.len()));
    assert(u[j + line.len()] == t[i + line.len()]);
    if i > 0 {
        assert(u[j - 1] == t[i - 1]);
    } else if x.len() > 0 {
        assert(u[j - 1] == x.last());
    }
}

/// The lines of a section are empty or end with a line break.
proof fn lemma_lines_end(prefix: Seq<char>, items: Seq<String>)
    ensures
        ends_line(lines_text(prefix, items)),
{
    reveal_strlit("\n");
    if items.len() > 0 {
        let t = lines_text(prefix, items.drop_last()) + prefix + items.last()@ + "\n"@;
        assert(t.last() == '\n');
    }
}

/// Each item of a section stands as its own line.
proof fn lemma_item_line(prefix: Seq<char>, items: Seq<String>, k: int)
    requires
        0 <= k < items.len(),
    ensures
        has_line(lines_text(prefix, items), prefix + items[k]@),
    decreases items.len(),
{
    reveal_strlit("\n");
    let rest = lines_text(prefix, items.drop_last());
    let line = prefix + items.last()@;
    assert(lines_text(prefix, items) =~= rest + line + "\n"@);
    if k == items.len() - 1 {
        lemma_lines_end(prefix, items.drop_last());
        let t = rest + line + "\n"@;
        let i = rest.len() as int;
        assert(t.subrange(i, i + line.len()) =~= line);
        assert(t[i + line.len()] == '\n');
        if i > 0 {
            assert(t[i - 1] == rest.last());
        }
    } else {
        lemma_item_line(prefix, items.drop_last(), k);
        assert(items.drop_last()[k] == items[k]);
        lemma_line_in_context(Seq::empty(), rest, line + "\n"@, prefix + items[k]@);
        assert(Seq::<char>::empty() + rest + (line + "\n"@) =~= rest + line + "\n"@);
    }
}

/// A section is empty or ends with a line break.
proof fn lemma_section_end(prefix: Seq<char>, items: Seq<String>)
    ensures
        ends_line(section_text(prefix, items)),
{
    reveal_strlit("\n");
    lemma_lines_end(prefix, items);
    if items.len() > 0 {
        assert(section_text(prefix, items).last() == '\n');
    } else {
        assert(section_text(prefix, items) =~= Seq::<char>::empty());
    }
}

/// Text ending a line, followed by a section, still ends a line.
proof fn lemma_ends_line_section(x: Seq<char>, prefix: Seq<char>, items: Seq<String>)
    requires
        ends_line(x),
    ensures
        ends_line(x + section_text(prefix, items)),
{
    lemma_section_end(prefix, items);
    let t = section_text(prefix, items);
    if t.len() > 0 {
        assert((x + t).last() == t.last());
    } else {
        assert(x + t =~= x);
    }
}

/// Every configured invariant, temporal property and state constraint
/// stands in the `.cfg` text as its own keyword line: `INVARIANT i`,
/// `PROPERTY p`, `CONSTRAINT c`. TLC checks nothing that is configured
/// but left out of the file.
#[verifier::spinoff_prover]
pub proof fn law_cfg_lists_everything(c: TlcConfig)
    ensures
        forall|k: int| 0 <= k < c.invariants@.len() ==> has_line(cfg_text(c), "INVARIANT "@ + (#[trigger] c.invariants@[k])@),
        forall|k: int| 0 <= k < c.properties@.len() ==> has_line(cfg_text(c), "PROPERTY "@ + (#[trigger] c.properties@[k])@),
        forall|k: int| 0 <= k < c.state_constraints@.len() ==> has_line(cfg_text(c), "CONSTRAINT "@ + (#[trigger] c.state_constraints@[k])@),
{
    lemma_cfg_parts(c);
    let head = cfg_head(c);
    let s1 = section_text("INVARIANT "@, c.invariants@);
    let s2 = section_text("PROPERTY "@, c.properties@);
    let s3 = section_text("CONSTRAINT "@, c.state_constraints@);
    let tail = section_text("ACTION_CONSTRAINT "@, c.action_constraints@) + cfg_constants(c)
        + section_text("SYMMETRY "@, c.symmetry@) + cfg_end(c);
    assert(cfg_text(c) =~= head + s1 + s2 + s3 + tail);
    lemma_ends_line_section(head, "INVARIANT "@, c.invariants@);
    lemma_ends_line_section(head + s1, "PROPERTY "@, c.properties@);
    assert forall|k: int| 0 <= k < c.invariants@.len() implies has_line(cfg_text(c), "INVARIANT "@ + (#[trigger] c.invariants@[k])@) by {
        reveal_strlit("\n");
        lemma_item_line("INVARIANT "@, c.invariants@, k);
        let l = lines_text("INVARIANT "@, c.invariants@);
        lemma_line_in_context(Seq::empty(), l, "\n"@, "INVARIANT "@ + c.invariants@[k]@);
        assert(Seq::<char>::empty() + l + "\n"@ =~= s1);
        lemma_line_in_context(head, s1, s2 + s3 + tail, "INVARIANT "@ + c.invariants@[k]@);
        assert(head + s1 + (s2 + s3 + tail) =~= cfg_text(c));
    }
    assert forall|k: int| 0 <= k < c.properties@.len() implies has_line(cfg_text(c), "PROPERTY "@ + (#[trigger] c.properties@[k])@) by {
        reveal_strlit("\n");
        lemma_item_line("PROPERTY "@, c.properties@, k);
        let l = lines_text("PROPERTY "@, c.properties@);
        lemma_line_in_context(Seq::empty(), l, "\n"@, "PROPERTY "@ + c.properties@[k]@);
        assert(Seq::<char>::empty() + l + "\n"@ =~= s2);
        lemma_line_in_context(head + s1, s2, s3 + tail, "PROPERTY "@ + c.properties@[k]@);
        assert(head + s1 + s2 + (s3 + tail) =~= cfg_text(c));
    }
    assert forall|k: int| 0 <= k < c.state_constraints@.len() implies has_line(cfg_text(c), "CONSTRAINT "@ + (#[trigger] c.state_constraints@[k])@) by {
        reveal_strlit("\n");
        lemma_item_line("CONSTRAINT "@, c.state_constraints@, k);
        let l = lines_text("CONSTRAINT "@, c.state_constraints@);
        lemma_line_in_context(Seq::empty(), l, "\n"@, "CONSTRAINT "@ + c.state_constraints@[k]@);
        assert(Seq::<char>::empty() + l + "\n"@ =~= s3);
        lemma_line_in_context(head + s1 + s2, s3, tail, "CONSTRAINT "@ + c.state_constraints@[k]@);
    }
}

/// The `.cfg` text before its sections: the header comment and the
/// `INIT` and `NEXT` lines.
pub open spec fn cfg_head(c: TlcConfig) -> Seq<char> {
    "\\* TLC Configuration File\n"@ + "\\* Generated for: "@ + c.spec_name@ + "\n\n"@
        + optional_line("INIT "@, c.init) + optional_line("NEXT "@, c.next) + "\n"@
}

/// The `CONSTANTS` block of the `.cfg` text.
pub open spec fn cfg_constants(c: TlcConfig) -> Seq<char> {
    if c.constants@.len() > 0 { "CONSTANTS\n"@ + constant_lines(c.constants@) + "\n"@ } else { Seq::<char>::empty() }
}

/// The `VIEW` and `CHECK_DEADLOCK` lines of the `.cfg` text.
pub open spec fn cfg_end(c: TlcConfig) -> Seq<char> {
    (match c.view { Some(v) => "VIEW "@ + v@ + "\n\n"@, None => Seq::<char>::empty() })
        + (if !c.check_deadlock { "CHECK_DEADLOCK FALSE\n\n"@ } else { Seq::<char>::empty() })
}

/// The `.cfg` text in its parts.
#[verifier::spinoff_prover]
proof fn lemma_cfg_parts(c: TlcConfig)
    ensures
        cfg_text(c) == cfg_head(c) + section_text("INVARIANT "@, c.invariants@)
            + section_text("PROPERTY "@, c.properties@) + section_text("CONSTRAINT "@, c.state_constraints@)
            + section_text("ACTION_CONSTRAINT "@, c.action_constraints@) + cfg_constants(c)
            + section_text("SYMMETRY "@, c.symmetry@) + cfg_end(c),
        ends_line(cfg_head(c)),
        ends_line(cfg_constants(c)),
{
    reveal_strlit("\n");
    assert(cfg_text(c) =~= cfg_head(c) + section_text("INVARIANT "@, c.invariants@)
            + section_text("PROPERTY "@, c.properties@) + section_text("CONSTRAINT "@, c.state_constraints@)
            + section_text("ACTION_CONSTRAINT "@, c.action_constraints@) + cfg_constants(c)
            + section_text("SYMMETRY "@, c.symmetry@) + cfg_end(c));
}

/// Every configured action constraint and symmetry set stands in the
/// `.cfg` text as its own keyword line: `ACTION_CONSTRAINT a`,
/// `SYMMETRY s`.
#[verifier::spinoff_prover]
pub proof fn law_cfg_lists_action_constraints_and_symmetry(c: TlcConfig)
    ensures
        forall|k: int| 0 <= k < c.action_constraints@.len() ==> has_line(cfg_text(c), "ACTION_CONSTRAINT "@ + (#[trigger] c.action_constraints@[k])@),
        forall|k: int| 0 <= k < c.symmetry@.len() ==> has_line(cfg_text(c), "SYMMETRY "@ + (#[trigger] c.symmetry@[k])@),
{
    reveal_strlit("\n");
    lemma_cfg_parts(c);
    let head = cfg_head(c);
    let s1 = section_text("INVARIANT "@, c.invariants@);
    let s2 = section_text("PROPERTY "@, c.properties@);
    let s3 = section_text("CONSTRAINT "@, c.state_constraints@);
    let s4 = section_text("ACTION_CONSTRAINT "@, c.action_constraints@);
    let consts = cfg_constants(c);
    let s5 = section_text("SYMMETRY "@, c.symmetry@);
    let last = cfg_end(c);
    lemma_ends_line_section(head, "INVARIANT "@, c.invariants@);
    lemma_ends_line_section(head + s1, "PROPERTY "@, c.properties@);
    lemma_ends_line_section(head + s1 + s2, "CONSTRAINT "@, c.state_constraints@);
    lemma_ends_line_section(head + s1 + s2 + s3, "ACTION_CONSTRAINT "@, c.action_constraints@);
    let before5 = head + s1 + s2 + s3 + s4 + consts;
    assert(ends_line(before5)) by {
        if consts.len() > 0 {
            assert(before5.last() == consts.last());
        } else {
            assert(before5 =~= head + s1 + s2 + s3 + s4);
        }
    }
    assert forall|k: int| 0 <= k < c.action_constraints@.len() implies has_line(cfg_text(c), "ACTION_CONSTRAINT "@ + (#[trigger] c.action_constraints@[k])@) by {
        lemma_item_line("ACTION_CONSTRAINT "@, c.action_constraints@, k);
        let l = lines_text("ACTION_CONSTRAINT "@, c.action_constraints@);
        lemma_line_in_context(Seq::empty(), l, "\n"@, "ACTION_CONSTRAINT "@ + c.action_constraints@[k]@);
        assert(Seq::<char>::empty() + l + "\n"@ =~= s4);
        lemma_line_in_context(head + s1 + s2 + s3, s4, consts + s5 + last, "ACTION_CONSTRAINT "@ + c.action_constraints@[k]@);
        assert(head + s1 + s2 + s3 + s4 + (consts + s5 + last) =~= cfg_text(c));
    }
    assert forall|k: int| 0 <= k < c.symmetry@.len() implies has_line(cfg_text(c), "SYMMETRY "@ + (#[trigger] c.symmetry@[k])@) by {
        lemma_item_line("SYMMETRY "@, c.symmetry@, k);
        let l = lines_text("SYMMETRY "@, c.symmetry@);
        lemma_line_in_context(Seq::empty(), l, "\n"@, "SYMMETRY "@ + c.symmetry@[k]@);
        assert(Seq::<char>::empty() + l + "\n"@ =~= s5);
        lemma_line_in_context(before5, s5, last, "SYMMETRY "@ + c.symmetry@[k]@);
        assert(before5 + s5 + last =~= cfg_text(c));
    }
}

/// A present optional line stands as a line.
proof fn lemma_optional_line(prefix: Seq<char>, x: String)
    ensures
        has_line(optional_line(prefix, Some(x)), prefix + x@),
        ends_line(optional_line(prefix, Some(x))),
{
    reveal_strlit("\n");
    let line = prefix + x@;
    let t = optional_line(prefix, Some(x));
    assert(t =~= line + "\n"@);
    assert(t.subrange(0int, 0int + line.len()) =~= line);
    assert(t[line.len() as int] == '\n');
}

/// The `.cfg` text after its head.
pub open spec fn cfg_rest(c: TlcConfig) -> Seq<char> {
    section_text("INVARIANT "@, c.invariants@)
        + section_text("PROPERTY "@, c.properties@) + section_text("CONSTRAINT "@, c.state_constraints@)
        + section_text("ACTION_CONSTRAINT "@, c.action_constraints@) + cfg_constants(c)
        + section_text("SYMMETRY "@, c.symmetry@) + cfg_end(c)
}

/// The `.cfg` text is its head followed by the rest.
#[verifier::spinoff_prover]
proof fn lemma_cfg_head_first(c: TlcConfig)
    ensures
        cfg_text(c) == cfg_head(c) + cfg_rest(c),
{
    let h = cfg_head(c);
    let s1 = section_text("INVARIANT "@, c.invariants@);
    let s2 = section_text("PROPERTY "@, c.properties@);
    let s3 = section_text("CONSTRAINT "@, c.state_constraints@);
    let s4 = section_text("ACTION_CONSTRAINT "@, c.action_constraints@);
    let k = cfg_constants(c);
    let s5 = section_text("SYMMETRY "@, c.symmetry@);
    let e = cfg_end(c);
    lemma_cfg_parts(c);
    lemma_concat_assoc(h, s1, s2);
    lemma_concat_assoc(h, s1 + s2, s3);
    lemma_concat_assoc(h, s1 + s2 + s3, s4);
    lemma_concat_assoc(h, s1 + s2 + s3 + s4, k);
    lemma_concat_assoc(h, s1 + s2 + s3 + s4 + k, s5);
    lemma_concat_assoc(h, s1 + s2 + s3 + s4 + k + s5, e);
}

/// Joining texts does not depend on grouping.
proof fn lemma_concat_assoc(a: Seq<char>, b: Seq<char>, c: Seq<char>)
    ensures
        a + b + c == a + (b + c),
{
    assert(a + b + c =~= a + (b + c));
}

/// The initial and next-state predicates, when configured, stand in the
/// `.cfg` text as their own lines `INIT i` and `NEXT n`.
#[verifier::spinoff_prover]
#[verifier::rlimit(50)]
pub proof fn law_cfg_lists_init_and_next(c: TlcConfig)
    ensures
        c.init matches Some(i) ==> has_line(cfg_text(c), "INIT "@ + i@),
        c.next matches Some(n) ==> has_line(cfg_text(c), "NEXT "@ + n@),
{
    reveal_strlit("\n\n");
    lemma_cfg_head_first(c);
    let rest = cfg_rest(c);
    let h0 = "\\* TLC Configuration File\n"@ + "\\* Generated for: "@ + c.spec_name@ + "\n\n"@;
    let oi = optional_line("INIT "@, c.init);
    let on = optional_line("NEXT "@, c.next);
    assert(cfg_head(c) == h0 + oi + on + "\n"@);
    assert(ends_line(h0));
    if c.init is Some {
        let line = "INIT "@ + c.init.unwrap()@;
        lemma_optional_line("INIT "@, c.init.unwrap());
        lemma_line_in_context(h0, oi, on + "\n"@, line);
        assert(h0 + oi + (on + "\n"@) =~= cfg_head(c));
        lemma_line_in_context(Seq::empty(), cfg_head(c), rest, line);
        assert(Seq::<char>::empty() + cfg_head(c) + rest =~= cfg_text(c));
    }
    if c.next is Some {
        let line = "NEXT "@ + c.next.unwrap()@;
        lemma_optional_line("NEXT "@, c.next.unwrap());
        assert(ends_line(h0 + oi)) by {
            if c.init is Some {
                lemma_optional_line("INIT "@, c.init.unwrap());
                assert((h0 + oi).last() == oi.last());
            } else {
                assert(h0 + oi =~= h0);
            }
        }
        lemma_line_in_context(h0 + oi, on, "\n"@, line);
        lemma_line_in_context(Seq::empty(), cfg_head(c), rest, line);
        assert(Seq::<char>::empty() + cfg_head(c) + rest =~= cfg_text(c));
    }
}

} // verus!
