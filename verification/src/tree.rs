//! The configuration tree: menus, leaf commands and argument-collection
//! steps, together with the formatting of picker candidates and the lookup
//! of a child by its label.

use vstd::prelude::*;
use vstd::string::StrSliceExecFns;
use vstd::string::StringExecFns;
use crate::text::has_char;
use crate::text::key_of;

verus! {

/// Immutable per-process settings handed to the shell executor.
pub struct Context {
    /// Directory exported to every spawned subprocess through the cache
    /// environment variable.
    pub cache_directory: String,
}

/// One argument-collection step inside a `Command`.
pub enum Widget {
    /// Run a shell command, offer each line of its output as a picker
    /// candidate, optionally with a preview-command template.
    FromCommand { command: String, preview: Option<String> },
    /// Read one raw line of user input.
    FreeText,
}

/// One labelled child of a `Select` node.
pub struct Entry {
    pub label: String,
    pub action: Action,
}

/// A node of the configuration tree.
pub enum Action {
    /// A leaf: collect one argument per widget, substitute them into the
    /// template, and run the result.
    Command { description: Option<String>, command: String, widgets: Vec<Widget> },
    /// A menu: narrow to one child by a picker call and continue there.
    Select { description: Option<String>, options: Vec<Entry> },
}

/// The top level of a configuration document: its options form the root
/// `Select` of the tree.
pub struct Config {
    pub options: Vec<Entry>,
    pub shell: Option<String>,
    pub description: Option<String>,
}

impl Config {
    /// The root node of the tree this configuration describes.
    pub fn into_action(self) -> (a: Action)
        ensures
            a == (Action::Select { description: self.description, options: self.options }),
    {
        Action::Select { description: self.description, options: self.options }
    }
}

impl Action {
    /// The node's optional description.
    pub open spec fn spec_description(&self) -> Option<String> {
        match *self {
            Action::Command { description, .. } => description,
            Action::Select { description, .. } => description,
        }
    }
}

/// The candidate string shown for one child: its label, with `": "` and the
/// child's description appended when that description is present and
/// non-empty.
pub open spec fn candidate_of(e: Entry) -> Seq<char> {
    match e.action.spec_description() {
        Some(d) => if d@.len() > 0 {
            e.label@ + seq![':', ' '] + d@
        } else {
            e.label@
        },
        None => e.label@,
    }
}

/// The candidate list for a whole `Select`, in the children's own order.
pub open spec fn candidates_of(opts: Seq<Entry>) -> Seq<Seq<char>> {
    opts.map_values(|e: Entry| candidate_of(e))
}

/// The first child whose label is exactly `key`, if any.
pub open spec fn lookup(opts: Seq<Entry>, key: Seq<char>) -> Option<Action>
    decreases opts.len(),
{
    if opts.len() == 0 {
        None
    } else if opts[0].label@ == key {
        Some(opts[0].action)
    } else {
        lookup(opts.drop_first(), key)
    }
}

/// All labels of a `Select`, joined by `", "`, in order.
pub open spec fn labels_joined(opts: Seq<Entry>) -> Seq<char>
    decreases opts.len(),
{
    if opts.len() == 0 {
        Seq::empty()
    } else if opts.len() == 1 {
        opts[0].label@
    } else {
        opts[0].label@ + seq![',', ' '] + labels_joined(opts.drop_first())
    }
}

fn clone_opt_string(o: &Option<String>) -> (r: Option<String>)
    ensures
        r == *o,
{
    match o {
        Some(s) => Some(s.clone()),
        None => None,
    }
}

/// An owned copy of a widget, equal to the one given.
pub fn clone_widget(w: &Widget) -> (r: Widget)
    ensures
        r == *w,
{
    match w {
        Widget::FromCommand { command, preview } => Widget::FromCommand {
            command: command.clone(),
            preview: clone_opt_string(preview),
        },
        Widget::FreeText => Widget::FreeText,
    }
}

/// The candidate list presented for `options`: one line per child, in the
/// children's own order.
pub fn select_candidates(options: &Vec<Entry>) -> (r: Vec<String>)
    ensures
        r.deep_view() == candidates_of(options@),
{
    let mut r: Vec<String> = Vec::new();
    let mut i: usize = 0;
    while i < options.len()
        invariant
            i <= options@.len(),
            r.deep_view() =~= candidates_of(options@.take(i as int)),
        decreases options@.len() - i,
    {
        proof {
            reveal_strlit(": ");
            assert(": "@ =~= seq![':', ' ']);
        }
        let e = &options[i];
        let mut line = String::new();
        line.append(e.label.as_str());
        let desc = match &e.action {
            Action::Command { description, .. } => description,
            Action::Select { description, .. } => description,
        };
        match desc {
            Some(d) => {
                if d.unicode_len() > 0 {
                    line.append(": ");
                    line.append(d.as_str());
                }
            },
            None => {},
        }
        proof {
            assert(line@ =~= candidate_of(options@[i as int]));
        }
        let ghost r_old = r.deep_view();
        r.push(line);
        proof {
            assert(options@.take(i as int + 1) =~= options@.take(i as int).push(
                options@[i as int],
            ));
            assert(r.deep_view() =~= r_old.push(line@));
            assert(candidates_of(options@.take(i as int + 1)) =~= candidates_of(
                options@.take(i as int),
            ).push(candidate_of(options@[i as int])));
            assert(r.deep_view() =~= candidates_of(options@.take(i as int + 1)));
        }
        i = i + 1;
    }
    proof {
        assert(options@.take(options@.len() as int) =~= options@);
    }
    r
}

/// The position of the first child whose label is exactly `key`.
pub fn find_label(options: &Vec<Entry>, key: &str) -> (r: Option<usize>)
    ensures
        (match r {
            Some(i) => i < options@.len() && options@[i as int].label@ == key@ && lookup(
                options@,
                key@,
            ) == Some(options@[i as int].action),
            None => lookup(options@, key@) is None,
        }),
{
    let mut i: usize = 0;
    while i < options.len()
        invariant
            i <= options@.len(),
            forall|k: int| 0 <= k < i ==> options@[k].label@ != key@,
        decreases options@.len() - i,
    {
        if crate::text::str_eq(options[i].label.as_str(), key) {
            proof {
                lemma_lookup_first(options@, key@, i as int);
            }
            return Some(i);
        }
        i = i + 1;
    }
    proof {
        lemma_lookup_none(options@, key@, 0);
    }
    None
}

proof fn lemma_lookup_first(opts: Seq<Entry>, key: Seq<char>, i: int)
    requires
        0 <= i < opts.len(),
        opts[i].label@ == key,
        forall|k: int| 0 <= k < i ==> opts[k].label@ != key,
    ensures
        lookup(opts, key) == Some(opts[i].action),
    decreases i,
{
    if i > 0 {
        assert forall|k: int| 0 <= k < i - 1 implies opts.drop_first()[k].label@ != key by {
            assert(opts.drop_first()[k] == opts[k + 1]);
        }
        assert(opts.drop_first()[i - 1] == opts[i]);
        lemma_lookup_first(opts.drop_first(), key, i - 1);
    }
}

proof fn lemma_lookup_none(opts: Seq<Entry>, key: Seq<char>, i: int)
    requires
        0 <= i,
        forall|k: int| 0 <= k < opts.len() ==> opts[k].label@ != key,
    ensures
        lookup(opts, key) is None,
    decreases opts.len(),
{
    if opts.len() > 0 {
        assert forall|k: int| 0 <= k < opts.drop_first().len() implies opts.drop_first()[k].label@
            != key by {
            assert(opts.drop_first()[k] == opts[k + 1]);
        }
        lemma_lookup_none(opts.drop_first(), key, 0);
    }
}

/// The labels of `options` joined by `", "`, the listing shown when a
/// supplied selection matches none of them.
pub fn join_labels(options: &Vec<Entry>) -> (r: String)
    ensures
        r@ == labels_joined(options@),
{
    let mut out = String::new();
    let mut i: usize = 0;
    proof {
        reveal_strlit(", ");
        assert(", "@ =~= seq![',', ' ']);
    }
    while i < options.len()
        invariant
            i <= options@.len(),
            ", "@ == seq![',', ' '],
            i == 0 ==> out@ == Seq::<char>::empty(),
            i > 0 ==> out@ == labels_joined(options@.take(i as int)),
        decreases options@.len() - i,
    {
        if i > 0 {
            out.append(", ");
        }
        out.append(options[i].label.as_str());
        proof {
            lemma_labels_joined_push(options@.take(i as int), options@[i as int]);
            assert(options@.take(i as int).push(options@[i as int]) =~= options@.take(i as int + 1));
            assert(out@ =~= labels_joined(options@.take(i as int + 1)));
        }
        i = i + 1;
    }
    proof {
        if options@.len() == 0 {
        } else {
            assert(options@.take(options@.len() as int) =~= options@);
        }
    }
    out
}

proof fn lemma_labels_joined_push(opts: Seq<Entry>, e: Entry)
    ensures
        opts.len() == 0 ==> labels_joined(opts.push(e)) == e.label@,
        opts.len() > 0 ==> labels_joined(opts.push(e)) == labels_joined(opts) + seq![',', ' ']
            + e.label@,
    decreases opts.len(),
{
    if opts.len() == 0 {
        assert(opts.push(e)[0] == e);
    } else {
        lemma_labels_joined_push(opts.drop_first(), e);
        assert(opts.push(e).drop_first() =~= opts.drop_first().push(e));
        assert(opts.push(e)[0] == opts[0]);
        if opts.len() == 1 {
            assert(labels_joined(opts.push(e)) == opts[0].label@ + seq![',', ' '] + e.label@);
        } else {
            let a = opts[0].label@;
            let c = seq![',', ' '];
            let jd = labels_joined(opts.drop_first());
            assert(labels_joined(opts.push(e)) == a + c + (jd + c + e.label@));
            assert(a + c + (jd + c + e.label@) =~= (a + c + jd) + c + e.label@);
        }
    }
}

/// Splitting a candidate on its first colon recovers the child's label,
/// provided the label itself holds no colon; the description may hold any
/// number of colons.
pub proof fn lemma_candidate_key(e: Entry)
    requires
        !has_char(e.label@, ':'),
    ensures
        key_of(candidate_of(e)) == e.label@,
{
    match e.action.spec_description() {
        Some(d) => {
            if d@.len() > 0 {
                lemma_key_of_stops(e.label@ + seq![':', ' '] + d@, e.label@.len() as int);
                assert((e.label@ + seq![':', ' '] + d@).take(e.label@.len() as int) =~= e.label@);
            } else {
                lemma_key_of_whole(e.label@);
            }
        },
        None => {
            lemma_key_of_whole(e.label@);
        },
    }
}

/// A selection taken verbatim from the candidate list leads back to the
/// child it was built from: the colon split recovers the label, and the
/// label finds the child.  It asks that the label holds no colon of its own
/// and that no earlier child carries the same label.
pub proof fn lemma_candidate_selection_finds_child(opts: Seq<Entry>, k: int)
    requires
        0 <= k < opts.len(),
        !has_char(opts[k].label@, ':'),
        forall|i: int| 0 <= i < k ==> opts[i].label@ != opts[k].label@,
    ensures
        lookup(opts, key_of(candidates_of(opts)[k])) == Some(opts[k].action),
{
    assert(candidates_of(opts)[k] == candidate_of(opts[k]));
    lemma_candidate_key(opts[k]);
    lemma_lookup_first(opts, opts[k].label@, k);
}

proof fn lemma_key_of_stops(s: Seq<char>, i: int)
    requires
        0 <= i < s.len(),
        forall|k: int| 0 <= k < i ==> s[k] != ':',
        s[i] == ':',
    ensures
        key_of(s) == s.take(i),
    decreases i,
{
    if i == 0 {
        assert(key_of(s) =~= s.take(0));
    } else {
        assert forall|k: int| 0 <= k < i - 1 implies s.drop_first()[k] != ':' by {
            assert(s.drop_first()[k] == s[k + 1]);
        }
        assert(s.drop_first()[i - 1] == s[i]);
        lemma_key_of_stops(s.drop_first(), i - 1);
        assert(seq![s[0]] + s.drop_first().take(i - 1) =~= s.take(i));
    }
}

proof fn lemma_key_of_whole(s: Seq<char>)
    requires
        !has_char(s, ':'),
    ensures
        key_of(s) == s,
    decreases s.len(),
{
    if s.len() > 0 {
        assert(s[0] != ':');
        assert(!has_char(s.drop_first(), ':')) by {
            if has_char(s.drop_first(), ':') {
                let k = choose|k: int|
                    0 <= k < s.drop_first().len() && s.drop_first()[k] == ':';
                assert(s[k + 1] == ':');
            }
        }
        lemma_key_of_whole(s.drop_first());
        assert(seq![s[0]] + s.drop_first() =~= s);
    }
}

} // verus!
