//! From the arguments of a `find` command to the searches that it asks for.

use crate::pattern::{regex_compiles, Pattern};
use crate::permission::{descriptor_meaning, parse_descriptor};
use crate::request::{RequestView, SearchRequest};
use vstd::prelude::*;

verus! {

/// The arguments of a `find` command, as its flags give them.
#[derive(Debug, PartialEq, Eq)]
pub struct FindArgs {
    /// The directories to search; with none, the current directory.
    pub directories: Vec<String>,
    /// The patterns to search for; with none, everything matches.
    pub patterns: Vec<String>,
    /// The file that the results go to in place of the standard output.
    pub output_file: Option<String>,
    /// The least size of a file, in bytes.
    pub file_size: Option<u64>,
    /// Whether directories are searched for as well as files.
    pub all: bool,
    /// How many levels below each directory to search.
    pub nesting_depth: Option<i32>,
    /// The extension that files must have.
    pub file_type: Option<String>,
    /// The permission descriptor that entries must meet.
    pub permissions: Option<String>,
}

/// The mathematical content of [`FindArgs`].
pub struct ArgsView {
    pub directories: Seq<Seq<char>>,
    pub patterns: Seq<Seq<char>>,
    pub output_file: Option<Seq<char>>,
    pub file_size: Option<nat>,
    pub all: bool,
    pub nesting_depth: Option<int>,
    pub file_type: Option<Seq<char>>,
    pub permissions: Option<Seq<char>>,
}

/// The view of a string that may be missing.
pub open spec fn text_of(text: Option<String>) -> Option<Seq<char>> {
    match text {
        Some(text) => Some(text@),
        None => None,
    }
}

impl View for FindArgs {
    type V = ArgsView;

    open spec fn view(&self) -> ArgsView {
        ArgsView {
            directories: self.directories.deep_view(),
            patterns: self.patterns.deep_view(),
            output_file: text_of(self.output_file),
            file_size: match self.file_size {
                Some(size) => Some(size as nat),
                None => None,
            },
            all: self.all,
            nesting_depth: match self.nesting_depth {
                Some(depth) => Some(depth as int),
                None => None,
            },
            file_type: text_of(self.file_type),
            permissions: text_of(self.permissions),
        }
    }
}

/// Why the arguments of a `find` command ask for no search.
#[derive(Clone, Copy, Debug, PartialEq, Eq, Structural)]
pub enum RequestError {
    /// The pattern at `index` is no regular expression.
    InvalidPattern { index: usize },
    /// The depth is below zero.
    NegativeDepth,
    /// The extension is empty.
    EmptyType,
    /// The permission descriptor is none.
    InvalidPermissions,
}

impl RequestError {
    /// What to tell the user.
    pub open spec fn message_text(self) -> Seq<char> {
        match self {
            RequestError::InvalidPattern { .. } => "The pattern is not a valid regular expression"@,
            RequestError::NegativeDepth => "The depth must not be negative"@,
            RequestError::EmptyType => "The file type must not be empty"@,
            RequestError::InvalidPermissions =>
                "The permissions must be one to four octal digits, with or without a + before them"@,
        }
    }

    /// The fault in words, for the user.
    pub fn message(&self) -> (text: String)
        ensures
            text@ == self.message_text(),
    {
        match self {
            RequestError::InvalidPattern { .. } =>
                "The pattern is not a valid regular expression".to_owned(),
            RequestError::NegativeDepth => "The depth must not be negative".to_owned(),
            RequestError::EmptyType => "The file type must not be empty".to_owned(),
            RequestError::InvalidPermissions =>
                "The permissions must be one to four octal digits, with or without a + before them".to_owned(),
        }
    }
}

/// The searches that a `find` command asks for, and where their results go.
#[derive(Debug, PartialEq, Eq)]
pub struct SearchPlan {
    /// The searches, in the order in which they run.
    pub requests: Vec<SearchRequest>,
    /// The file that the results go to in place of the standard output.
    pub output_file: Option<String>,
}

/// The place of the first of the first `count` patterns that is no regular
/// expression.
pub open spec fn first_bad_pattern(patterns: Seq<Seq<char>>, count: nat) -> Option<nat>
    decreases count,
{
    if count == 0 || count > patterns.len() {
        None
    } else {
        match first_bad_pattern(patterns, (count - 1) as nat) {
            Some(index) => Some(index),
            None => if regex_compiles(patterns[count - 1]) {
                None
            } else {
                Some((count - 1) as nat)
            },
        }
    }
}

/// The patterns to search for: those named, or else the one that matches
/// everything.
pub open spec fn wanted_patterns(patterns: Seq<Seq<char>>) -> Seq<Option<Seq<char>>> {
    if patterns.len() == 0 {
        seq![None]
    } else {
        Seq::new(patterns.len(), |j: int| Some(patterns[j]))
    }
}

impl ArgsView {
    /// What is wrong with the flags other than the patterns, if anything: a
    /// depth below zero, else an empty extension, else a permission
    /// descriptor that is none.
    pub open spec fn flag_fault(self) -> Option<RequestError> {
        if self.nesting_depth is Some && self.nesting_depth.unwrap() < 0 {
            Some(RequestError::NegativeDepth)
        } else if self.file_type is Some && self.file_type.unwrap().len() == 0 {
            Some(RequestError::EmptyType)
        } else if self.permissions is Some && descriptor_meaning(
            self.permissions.unwrap(),
        ) is None {
            Some(RequestError::InvalidPermissions)
        } else {
            None
        }
    }

    /// What is wrong with the arguments, if anything: the first pattern that
    /// is no regular expression, else what is wrong with the other flags.
    pub open spec fn fault(self) -> Option<RequestError> {
        match first_bad_pattern(self.patterns, self.patterns.len()) {
            Some(index) => Some(RequestError::InvalidPattern { index: index as usize }),
            None => self.flag_fault(),
        }
    }

    /// The directories to search: those named, or else the current one.
    pub open spec fn roots(self, current_dir: Seq<char>) -> Seq<Seq<char>> {
        if self.directories.len() == 0 {
            seq![current_dir]
        } else {
            self.directories
        }
    }

    /// The search for one pattern under one directory.
    pub open spec fn request_for(
        self,
        show_hidden: bool,
        root: Seq<char>,
        pattern: Option<Seq<char>>,
    ) -> RequestView {
        RequestView {
            roots: seq![root],
            pattern,
            min_size: self.file_size,
            include_directories: self.all,
            max_depth: match self.nesting_depth {
                Some(depth) => Some(depth as nat),
                None => None,
            },
            extension: self.file_type,
            permission: match self.permissions {
                Some(descriptor) => descriptor_meaning(descriptor),
                None => None,
            },
            show_hidden,
        }
    }

    /// The searches under one directory: one for each pattern, in order.
    pub open spec fn requests_under(
        self,
        show_hidden: bool,
        root: Seq<char>,
        wanted: Seq<Option<Seq<char>>>,
    ) -> Seq<RequestView> {
        Seq::new(wanted.len(), |j: int| self.request_for(show_hidden, root, wanted[j]))
    }

    /// The searches under the first `count` directories: directory by
    /// directory, and under each directory pattern by pattern.
    pub open spec fn requests_upto(
        self,
        current_dir: Seq<char>,
        show_hidden: bool,
        wanted: Seq<Option<Seq<char>>>,
        count: nat,
    ) -> Seq<RequestView>
        decreases count,
    {
        if count == 0 || count > self.roots(current_dir).len() {
            Seq::empty()
        } else {
            self.requests_upto(current_dir, show_hidden, wanted, (count - 1) as nat)
                + self.requests_under(show_hidden, self.roots(current_dir)[count - 1], wanted)
        }
    }

    /// The searches that the flags ask for with these patterns.
    pub open spec fn requests_with(
        self,
        current_dir: Seq<char>,
        show_hidden: bool,
        patterns: Seq<Seq<char>>,
    ) -> Seq<RequestView> {
        self.requests_upto(
            current_dir,
            show_hidden,
            wanted_patterns(patterns),
            self.roots(current_dir).len(),
        )
    }

    /// All the searches that the arguments ask for.
    pub open spec fn requests(self, current_dir: Seq<char>, show_hidden: bool) -> Seq<RequestView> {
        self.requests_with(current_dir, show_hidden, self.patterns)
    }
}

/// The views of a list of requests.
pub open spec fn request_views(requests: Seq<SearchRequest>) -> Seq<RequestView> {
    Seq::new(requests.len(), |k: int| requests[k]@)
}

/// The sources of a list of patterns.
pub open spec fn pattern_views(patterns: Seq<Pattern>) -> Seq<Seq<char>> {
    Seq::new(patterns.len(), |k: int| patterns[k]@)
}

/// Checks the patterns and keeps them if every one is a regular expression;
/// else says which is the first that is none.
pub fn compile_patterns(sources: &Vec<String>) -> (compiled: Result<Vec<Pattern>, usize>)
    ensures
        match compiled {
            Ok(patterns) => {
                &&& first_bad_pattern(sources.deep_view(), sources.len() as nat) is None
                &&& pattern_views(patterns@) == sources.deep_view()
            },
            Err(index) => first_bad_pattern(sources.deep_view(), sources.len() as nat) == Some(
                index as nat,
            ),
        },
{
    let mut patterns: Vec<Pattern> = Vec::new();
    let mut at: usize = 0;
    while at < sources.len()
        invariant
            at <= sources.len(),
            patterns.len() == at,
            first_bad_pattern(sources.deep_view(), at as nat) is None,
            forall|k: int| 0 <= k < at ==> (#[trigger] patterns[k])@ == sources[k]@,
        decreases sources.len() - at,
    {
        assert(sources.deep_view()[at as int] == sources[at as int]@);
        match Pattern::new(sources[at].as_str()) {
            Some(pattern) => {
                patterns.push(pattern);
            },
            None => {
                proof {
                    bad_pattern_stays_first(sources.deep_view(), (at + 1) as nat, sources.len() as nat);
                }
                return Err(at);
            },
        }
        at = at + 1;
    }
    assert(pattern_views(patterns@) =~= sources.deep_view());
    Ok(patterns)
}

/// Once a pattern is found that is no regular expression, looking at more
/// patterns does not change which one is the first.
proof fn bad_pattern_stays_first(patterns: Seq<Seq<char>>, seen: nat, count: nat)
    requires
        seen <= count <= patterns.len(),
        first_bad_pattern(patterns, seen) is Some,
    ensures
        first_bad_pattern(patterns, count) == first_bad_pattern(patterns, seen),
    decreases count - seen,
{
    if seen < count {
        bad_pattern_stays_first(patterns, seen, (count - 1) as nat);
    }
}

/// Builds the search for one pattern under one directory.
fn build_request(
    args: &FindArgs,
    show_hidden: bool,
    root: &String,
    pattern: Option<&Pattern>,
) -> (request: SearchRequest)
    requires
        args@.flag_fault() is None,
    ensures
        request@ == args@.request_for(
            show_hidden,
            root@,
            match pattern {
                Some(pattern) => Some(pattern@),
                None => None,
            },
        ),
{
    let mut roots: Vec<String> = Vec::new();
    roots.push(root.clone());
    assert(roots.deep_view() =~= seq![root@]);
    let max_depth = match args.nesting_depth {
        Some(depth) => Some(depth as u32),
        None => None,
    };
    let extension = match &args.file_type {
        Some(extension) => Some(extension.clone()),
        None => None,
    };
    let permission = match &args.permissions {
        Some(descriptor) => parse_descriptor(descriptor.as_str()),
        None => None,
    };
    let pattern = match pattern {
        Some(pattern) => Some(pattern.clone()),
        None => None,
    };
    SearchRequest {
        roots,
        pattern,
        min_size: args.file_size,
        include_directories: args.all,
        max_depth,
        extension,
        permission,
        show_hidden,
    }
}

/// Checks the flags other than the patterns.
pub fn check_flags(args: &FindArgs) -> (fault: Option<RequestError>)
    ensures
        fault == args@.flag_fault(),
{
    match args.nesting_depth {
        Some(depth) => {
            if depth < 0 {
                return Some(RequestError::NegativeDepth);
            }
        },
        None => {},
    }
    match &args.file_type {
        Some(extension) => {
            if extension.as_str().is_empty() {
                return Some(RequestError::EmptyType);
            }
        },
        None => {},
    }
    match &args.permissions {
        Some(descriptor) => {
            if parse_descriptor(descriptor.as_str()).is_none() {
                return Some(RequestError::InvalidPermissions);
            }
        },
        None => {},
    }
    None
}

/// Turns the flags of a `find` command, with patterns that were checked
/// before, into the searches that they ask for: one for each directory and
/// pattern, directory by directory, each with the filters that the flags
/// give. Flags that are at fault give the fault and no search. The patterns
/// of `args` itself are not looked at.
pub fn plan_searches(
    current_dir: &str,
    args: &FindArgs,
    patterns: &Vec<Pattern>,
    show_hidden: bool,
) -> (plan: Result<SearchPlan, RequestError>)
    ensures
        match plan {
            Ok(plan) => {
                &&& args@.flag_fault() is None
                &&& request_views(plan.requests@) == args@.requests_with(
                    current_dir@,
                    show_hidden,
                    pattern_views(patterns@),
                )
                &&& text_of(plan.output_file) == args@.output_file
            },
            Err(error) => args@.flag_fault() == Some(error),
        },
{
    match check_flags(args) {
        Some(fault) => {
            return Err(fault);
        },
        None => {},
    }
    let mut own_root: Vec<String> = Vec::new();
    let roots: &Vec<String> = if args.directories.len() == 0 {
        own_root.push(current_dir.to_owned());
        &own_root
    } else {
        &args.directories
    };
    assert(roots.deep_view() =~= args@.roots(current_dir@));
    let ghost wanted = wanted_patterns(pattern_views(patterns@));
    let mut requests: Vec<SearchRequest> = Vec::new();
    let mut at: usize = 0;
    while at < roots.len()
        invariant
            at <= roots.len(),
            args@.flag_fault() is None,
            roots.deep_view() == args@.roots(current_dir@),
            wanted == wanted_patterns(pattern_views(patterns@)),
            request_views(requests@) == args@.requests_upto(
                current_dir@,
                show_hidden,
                wanted,
                at as nat,
            ),
        decreases roots.len() - at,
    {
        let root = &roots[at];
        assert(roots.deep_view()[at as int] == root@);
        let ghost before = request_views(requests@);
        let ghost under = args@.requests_under(show_hidden, root@, wanted);
        if patterns.len() == 0 {
            let request = build_request(args, show_hidden, root, None);
            assert(request@ == under[0]);
            assert(under =~= seq![under[0]]);
            requests.push(request);
            assert(request_views(requests@) =~= before.push(under[0]));
        } else {
            let mut next: usize = 0;
            while next < patterns.len()
                invariant
                    next <= patterns.len(),
                    patterns.len() > 0,
                    args@.flag_fault() is None,
                    wanted == wanted_patterns(pattern_views(patterns@)),
                    under == args@.requests_under(show_hidden, root@, wanted),
                    request_views(requests@) == before + under.take(next as int),
                decreases patterns.len() - next,
            {
                assert(wanted[next as int] == Some(patterns[next as int]@));
                let request = build_request(args, show_hidden, root, Some(&patterns[next]));
                let ghost so_far = request_views(requests@);
                assert(request@ == under[next as int]);
                assert(under.take(next + 1) =~= under.take(next as int).push(under[next as int]));
                requests.push(request);
                assert(request_views(requests@) =~= so_far.push(under[next as int]));
                next = next + 1;
            }
        }
        assert(request_views(requests@) =~= before + under);
        at = at + 1;
    }
    let output_file = match &args.output_file {
        Some(path) => Some(path.clone()),
        None => None,
    };
    Ok(SearchPlan { requests, output_file })
}

/// Turns the arguments of a `find` command into the searches that it asks
/// for: one for each directory and pattern, directory by directory, each
/// with the filters that the flags give. Arguments that are at fault give
/// the fault and no search.
pub fn find(current_dir: &str, args: &FindArgs, show_hidden: bool) -> (plan: Result<
    SearchPlan,
    RequestError,
>)
    ensures
        match plan {
            Ok(plan) => {
                &&& args@.fault() is None
                &&& request_views(plan.requests@) == args@.requests(current_dir@, show_hidden)
                &&& text_of(plan.output_file) == args@.output_file
            },
            Err(error) => args@.fault() == Some(error),
        },
{
    match compile_patterns(&args.patterns) {
        Ok(patterns) => plan_searches(current_dir, args, &patterns, show_hidden),
        Err(index) => Err(RequestError::InvalidPattern { index }),
    }
}

} // verus!
