//! The parsed domain model: a container's identity fields plus its
//! last-observed status, built from one semicolon-delimited record of the
//! runtime's listing output, and the invocations of the lifecycle
//! operations.

use vstd::prelude::*;
use vstd::string::*;
use crate::error::DockerError;
use crate::error::DockerErrorKind;
use crate::socket::parse_socket;
use crate::socket::Socket;
use crate::socket::SocketView;
use crate::text::ci_eq;
use crate::text::lemma_split_on_len;
use crate::text::split_on;
use crate::text::split_str;
use crate::text::str_eq;

verus! {

/// Identity fields reported by the runtime, kept verbatim.
#[derive(Debug, PartialEq)]
pub struct ContainerData {
    pub id: String,
    pub image: String,
    pub entrypoint: String,
    pub created: String,
    pub name: String,
}

pub ghost struct ContainerDataView {
    pub id: Seq<char>,
    pub image: Seq<char>,
    pub entrypoint: Seq<char>,
    pub created: Seq<char>,
    pub name: Seq<char>,
}

impl View for ContainerData {
    type V = ContainerDataView;

    open spec fn view(&self) -> ContainerDataView {
        ContainerDataView {
            id: self.id@,
            image: self.image@,
            entrypoint: self.entrypoint@,
            created: self.created@,
            name: self.name@,
        }
    }
}

impl Clone for ContainerData {
    fn clone(&self) -> (res: Self)
        ensures
            res == *self,
    {
        ContainerData {
            id: self.id.clone(),
            image: self.image.clone(),
            entrypoint: self.entrypoint.clone(),
            created: self.created.clone(),
            name: self.name.clone(),
        }
    }
}

/// The status vocabulary the runtime reports. Only `Running` carries a
/// payload: the socket the runtime reports live.
#[derive(Debug, PartialEq)]
pub enum ConatinerStatus {
    Created,
    Running(Socket),
    Stopped,
    Paused,
    Restarting,
    Removing,
    Exited,
    Dead,
}

pub ghost enum ConatinerStatusView {
    Created,
    Running(SocketView),
    Stopped,
    Paused,
    Restarting,
    Removing,
    Exited,
    Dead,
}

impl View for ConatinerStatus {
    type V = ConatinerStatusView;

    open spec fn view(&self) -> ConatinerStatusView {
        match self {
            ConatinerStatus::Created => ConatinerStatusView::Created,
            ConatinerStatus::Running(s) => ConatinerStatusView::Running(s@),
            ConatinerStatus::Stopped => ConatinerStatusView::Stopped,
            ConatinerStatus::Paused => ConatinerStatusView::Paused,
            ConatinerStatus::Restarting => ConatinerStatusView::Restarting,
            ConatinerStatus::Removing => ConatinerStatusView::Removing,
            ConatinerStatus::Exited => ConatinerStatusView::Exited,
            ConatinerStatus::Dead => ConatinerStatusView::Dead,
        }
    }
}

impl Clone for ConatinerStatus {
    fn clone(&self) -> (res: Self)
        ensures
            res == *self,
    {
        match self {
            ConatinerStatus::Created => ConatinerStatus::Created,
            ConatinerStatus::Running(s) => ConatinerStatus::Running(s.clone()),
            ConatinerStatus::Stopped => ConatinerStatus::Stopped,
            ConatinerStatus::Paused => ConatinerStatus::Paused,
            ConatinerStatus::Restarting => ConatinerStatus::Restarting,
            ConatinerStatus::Removing => ConatinerStatus::Removing,
            ConatinerStatus::Exited => ConatinerStatus::Exited,
            ConatinerStatus::Dead => ConatinerStatus::Dead,
        }
    }
}

/// One container as reported by a listing: identity plus status.
#[derive(Debug, PartialEq)]
pub struct Container {
    pub container: ContainerData,
    pub status: ConatinerStatus,
}

pub ghost struct ContainerView {
    pub container: ContainerDataView,
    pub status: ConatinerStatusView,
}

impl View for Container {
    type V = ContainerView;

    open spec fn view(&self) -> ContainerView {
        ContainerView { container: self.container@, status: self.status@ }
    }
}

impl DeepView for Container {
    type V = ContainerView;

    open spec fn deep_view(&self) -> ContainerView {
        self@
    }
}

impl Clone for Container {
    fn clone(&self) -> (res: Self)
        ensures
            res == *self,
    {
        Container { container: self.container.clone(), status: self.status.clone() }
    }
}

/// What parsing one listing record yields. The record must split on `;`
/// into at least six fields: the first five populate the identity verbatim,
/// and the status is derived from the token of field five that precedes the
/// first space, matched case-insensitively against the closed vocabulary.
/// `running` and `up` are synonyms and additionally demand a seventh field
/// holding the published socket; an unknown token is `UnknownStatus`, and a
/// socket parse failure propagates as the socket's own error.
pub open spec fn parse_record(s: Seq<char>) -> Result<ContainerView, DockerErrorKind> {
    let f = split_on(s, ';');
    if f.len() < 6 {
        Err(DockerErrorKind::MalformedRecord)
    } else {
        let data = ContainerDataView {
            id: f[0],
            image: f[1],
            entrypoint: f[2],
            created: f[3],
            name: f[4],
        };
        let token = split_on(f[5], ' ')[0];
        if ci_eq(token, "created"@) {
            Ok(ContainerView { container: data, status: ConatinerStatusView::Created })
        } else if ci_eq(token, "running"@) || ci_eq(token, "up"@) {
            if f.len() < 7 {
                Err(DockerErrorKind::MalformedRecord)
            } else {
                match parse_socket(f[6]) {
                    Ok(sock) => Ok(
                        ContainerView {
                            container: data,
                            status: ConatinerStatusView::Running(sock),
                        },
                    ),
                    Err(k) => Err(k),
                }
            }
        } else if ci_eq(token, "stopped"@) {
            Ok(ContainerView { container: data, status: ConatinerStatusView::Stopped })
        } else if ci_eq(token, "paused"@) {
            Ok(ContainerView { container: data, status: ConatinerStatusView::Paused })
        } else if ci_eq(token, "restarting"@) {
            Ok(ContainerView { container: data, status: ConatinerStatusView::Restarting })
        } else if ci_eq(token, "removing"@) {
            Ok(ContainerView { container: data, status: ConatinerStatusView::Removing })
        } else if ci_eq(token, "exited"@) {
            Ok(ContainerView { container: data, status: ConatinerStatusView::Exited })
        } else if ci_eq(token, "dead"@) {
            Ok(ContainerView { container: data, status: ConatinerStatusView::Dead })
        } else {
            Err(DockerErrorKind::UnknownStatus)
        }
    }
}

/// The containers of the records that parse, in record order: a malformed
/// record is dropped, never surfaced.
pub open spec fn successful_parses(lines: Seq<Seq<char>>) -> Seq<ContainerView>
    decreases lines.len(),
{
    if lines.len() == 0 {
        Seq::<ContainerView>::empty()
    } else {
        (match parse_record(lines[0]) {
            Ok(c) => seq![c],
            Err(_) => Seq::<ContainerView>::empty(),
        }) + successful_parses(lines.drop_first())
    }
}

pub proof fn lemma_successful_parses_append(a: Seq<Seq<char>>, b: Seq<Seq<char>>)
    ensures
        successful_parses(a + b) == successful_parses(a) + successful_parses(b),
    decreases a.len(),
{
    if a.len() == 0 {
        assert(a + b =~= b);
        assert(successful_parses(a) + successful_parses(b) =~= successful_parses(b));
    } else {
        assert((a + b)[0] == a[0]);
        assert((a + b).drop_first() =~= a.drop_first() + b);
        lemma_successful_parses_append(a.drop_first(), b);
        assert(successful_parses(a + b) =~= successful_parses(a) + successful_parses(b));
    }
}

/// What a whole listing yields: the output split on newlines, each line
/// parsed as a record, failures dropped.
pub open spec fn parse_listing_spec(s: Seq<char>) -> Seq<ContainerView> {
    successful_parses(split_on(s, '\n'))
}

/// The first container whose id or name equals `name`, if any.
pub open spec fn find_by_id_or_name(name: Seq<char>, cs: Seq<ContainerView>) -> Option<
    ContainerView,
>
    decreases cs.len(),
{
    if cs.len() == 0 {
        Option::None
    } else if cs[0].container.id == name || cs[0].container.name == name {
        Option::Some(cs[0])
    } else {
        find_by_id_or_name(name, cs.drop_first())
    }
}

impl Container {
    /// Parses one semicolon-delimited listing record, exactly as
    /// `parse_record` describes it.
    pub fn try_from(value: String) -> (r: Result<Container, DockerError>)
        ensures
            match r {
                Ok(c) => parse_record(value@) == Ok::<ContainerView, DockerErrorKind>(c@),
                Err(e) => parse_record(value@) == Err::<ContainerView, DockerErrorKind>(e.kind),
            },
    {
        let fields = split_str(value.as_str(), ';');
        proof {
            assert(fields.deep_view().len() == fields@.len());
        }
        if fields.len() < 6 {
            return Err(DockerError::new(DockerErrorKind::MalformedRecord, "Too few fields"));
        }
        proof {
            assert(fields.deep_view()[0] == fields@[0]@);
            assert(fields.deep_view()[1] == fields@[1]@);
            assert(fields.deep_view()[2] == fields@[2]@);
            assert(fields.deep_view()[3] == fields@[3]@);
            assert(fields.deep_view()[4] == fields@[4]@);
            assert(fields.deep_view()[5] == fields@[5]@);
        }
        let data = ContainerData {
            id: fields[0].clone(),
            image: fields[1].clone(),
            entrypoint: fields[2].clone(),
            created: fields[3].clone(),
            name: fields[4].clone(),
        };
        let tokens = split_str(fields[5].as_str(), ' ');
        proof {
            lemma_split_on_len(fields@[5]@, ' ');
            assert(tokens.deep_view().len() == tokens@.len());
            assert(tokens.deep_view()[0] == tokens@[0]@);
        }
        let status = if eq_ignore_case_at(&tokens, "created") {
            ConatinerStatus::Created
        } else if eq_ignore_case_at(&tokens, "running") || eq_ignore_case_at(&tokens, "up") {
            if fields.len() < 7 {
                return Err(
                    DockerError::new(DockerErrorKind::MalformedRecord, "Missing ports field"),
                );
            }
            proof {
                assert(fields.deep_view()[6] == fields@[6]@);
            }
            match Socket::try_from(fields[6].clone()) {
                Ok(sock) => ConatinerStatus::Running(sock),
                Err(e) => {
                    return Err(e);
                },
            }
        } else if eq_ignore_case_at(&tokens, "stopped") {
            ConatinerStatus::Stopped
        } else if eq_ignore_case_at(&tokens, "paused") {
            ConatinerStatus::Paused
        } else if eq_ignore_case_at(&tokens, "restarting") {
            ConatinerStatus::Restarting
        } else if eq_ignore_case_at(&tokens, "removing") {
            ConatinerStatus::Removing
        } else if eq_ignore_case_at(&tokens, "exited") {
            ConatinerStatus::Exited
        } else if eq_ignore_case_at(&tokens, "dead") {
            ConatinerStatus::Dead
        } else {
            return Err(DockerError::new(DockerErrorKind::UnknownStatus, "Invalid status"));
        };
        Ok(Container { container: data, status })
    }

    /// Scans a fresh listing linearly and returns a copy of the first
    /// container whose id or name matches; `NotFound` when none does.
    pub fn try_get_by_id_or_name(name: &str, containers: &Vec<Container>) -> (r: Result<
        Container,
        DockerError,
    >)
        ensures
            match r {
                Ok(c) => find_by_id_or_name(name@, containers.deep_view()) == Option::Some(c@),
                Err(e) => {
                    &&& find_by_id_or_name(name@, containers.deep_view()) is None
                    &&& e.kind == DockerErrorKind::NotFound
                },
            },
    {
        let ghost cs = containers.deep_view();
        let mut i: usize = 0;
        proof {
            assert(cs.skip(0) =~= cs);
        }
        while i < containers.len()
            invariant
                0 <= i <= containers@.len(),
                cs == containers.deep_view(),
                cs.len() == containers@.len(),
                find_by_id_or_name(name@, cs) == find_by_id_or_name(name@, cs.skip(i as int)),
            decreases containers@.len() - i,
        {
            proof {
                assert(cs[i as int] == containers@[i as int]@);
                assert(cs.skip(i as int)[0] == cs[i as int]);
            }
            let c = &containers[i];
            if str_eq(c.container.id.as_str(), name) || str_eq(c.container.name.as_str(), name) {
                return Ok(c.clone());
            }
            proof {
                assert(cs.skip(i as int).drop_first() =~= cs.skip(i as int + 1));
            }
            i += 1;
        }
        proof {
            assert(cs.skip(containers@.len() as int) =~= Seq::<ContainerView>::empty());
        }
        Err(DockerError::new(DockerErrorKind::NotFound, "Container not found"))
    }

    /// The start invocation for this container, or nothing when it is
    /// already running: starting a running container is a no-op success,
    /// judged against the status the caller already holds.
    pub fn start_invocation(&self) -> (r: Option<Vec<String>>)
        ensures
            match r {
                Option::Some(args) => {
                    &&& !(self@.status is Running)
                    &&& args.deep_view() == seq!["start"@, self@.container.id]
                },
                Option::None => self@.status is Running,
            },
    {
        match &self.status {
            ConatinerStatus::Running(_) => Option::None,
            _ => {
                let mut args: Vec<String> = Vec::new();
                args.push(String::from_str("start"));
                args.push(self.container.id.clone());
                proof {
                    assert(args.deep_view() =~~= seq!["start"@, self@.container.id]);
                }
                Option::Some(args)
            },
        }
    }

    /// The stop invocation for this container, or nothing when it is
    /// already stopped: stopping a stopped container is a no-op success.
    pub fn stop_invocation(&self) -> (r: Option<Vec<String>>)
        ensures
            match r {
                Option::Some(args) => {
                    &&& !(self@.status is Stopped)
                    &&& args.deep_view() == seq!["stop"@, self@.container.id]
                },
                Option::None => self@.status is Stopped,
            },
    {
        match &self.status {
            ConatinerStatus::Stopped => Option::None,
            _ => {
                let mut args: Vec<String> = Vec::new();
                args.push(String::from_str("stop"));
                args.push(self.container.id.clone());
                proof {
                    assert(args.deep_view() =~~= seq!["stop"@, self@.container.id]);
                }
                Option::Some(args)
            },
        }
    }
}

/// Compares the first token of a split status phrase with a keyword, up to
/// ASCII case.
fn eq_ignore_case_at(tokens: &Vec<String>, keyword: &str) -> (r: bool)
    requires
        tokens@.len() >= 1,
    ensures
        r == ci_eq(tokens.deep_view()[0], keyword@),
{
    proof {
        assert(tokens.deep_view()[0] == tokens@[0]@);
    }
    crate::text::eq_ignore_case(tokens[0].as_str(), keyword)
}

/// Parses a whole listing: the output is split on newlines and each line
/// parsed as a record, keeping exactly the records that parse. A malformed
/// line never aborts the listing.
pub fn parse_listing(output: &str) -> (r: Vec<Container>)
    ensures
        r.deep_view() == parse_listing_spec(output@),
{
    let lines = split_str(output, '\n');
    let ghost ls = lines.deep_view();
    let mut r: Vec<Container> = Vec::new();
    let mut i: usize = 0;
    proof {
        assert(ls.take(0) =~= Seq::<Seq<char>>::empty());
    }
    while i < lines.len()
        invariant
            0 <= i <= lines@.len(),
            ls == lines.deep_view(),
            ls.len() == lines@.len(),
            r.deep_view() == successful_parses(ls.take(i as int)),
        decreases lines@.len() - i,
    {
        proof {
            assert(ls[i as int] == lines@[i as int]@);
        }
        let ghost before = r.deep_view();
        let line = lines[i].clone();
        match Container::try_from(line) {
            Ok(c) => {
                let ghost cv = c@;
                r.push(c);
                proof {
                    assert(r.deep_view() =~~= before + seq![cv]);
                }
            },
            Err(_) => {},
        }
        proof {
            assert(ls.take(i as int + 1) =~= ls.take(i as int) + seq![ls[i as int]]);
            lemma_successful_parses_append(ls.take(i as int), seq![ls[i as int]]);
            assert(seq![ls[i as int]].drop_first() =~= Seq::<Seq<char>>::empty());
            assert(successful_parses(Seq::<Seq<char>>::empty()) =~= Seq::<ContainerView>::empty());
            assert(successful_parses(seq![ls[i as int]]) =~~= (match parse_record(ls[i as int]) {
                Ok(c) => seq![c],
                Err(_) => Seq::<ContainerView>::empty(),
            }));
            assert(r.deep_view() =~~= successful_parses(ls.take(i as int + 1)));
        }
        i += 1;
    }
    proof {
        assert(ls.take(lines@.len() as int) =~= ls);
    }
    r
}

/// The fixed listing invocation: every container, one record per line, with
/// the semicolon-joined field template this module's parser expects.
pub fn listing_invocation() -> (r: Vec<String>)
    ensures
        r.deep_view() == seq![
            "ps"@,
            "-a"@,
            "--format"@,
            "{{.ID}};{{.Image}};{{.Command}};{{.CreatedAt}};{{.Names}};{{.Status}};{{.Ports}}"@,
        ],
{
    let mut r: Vec<String> = Vec::new();
    r.push(String::from_str("ps"));
    r.push(String::from_str("-a"));
    r.push(String::from_str("--format"));
    r.push(
        String::from_str(
            "{{.ID}};{{.Image}};{{.Command}};{{.CreatedAt}};{{.Names}};{{.Status}};{{.Ports}}",
        ),
    );
    proof {
        assert(r.deep_view() =~~= seq![
            "ps"@,
            "-a"@,
            "--format"@,
            "{{.ID}};{{.Image}};{{.Command}};{{.CreatedAt}};{{.Names}};{{.Status}};{{.Ports}}"@,
        ]);
    }
    r
}

/// The invocation that runs a fresh container of `image` detached, with any
/// extra arguments placed between the subcommand and the detach flag.
pub fn run_invocation(image: &str, args: Option<Vec<String>>) -> (r: Vec<String>)
    ensures
        r.deep_view() == seq!["run"@] + (match args {
            Option::Some(a) => a.deep_view(),
            Option::None => Seq::<Seq<char>>::empty(),
        }) + seq!["-d"@, image@],
{
    let ghost extra = match &args {
        Option::Some(a) => a.deep_view(),
        Option::None => Seq::<Seq<char>>::empty(),
    };
    let mut r: Vec<String> = Vec::new();
    r.push(String::from_str("run"));
    if let Option::Some(mut a) = args {
        r.append(&mut a);
    }
    proof {
        assert(r.deep_view() =~~= seq!["run"@] + extra);
    }
    r.push(String::from_str("-d"));
    r.push(image.to_owned());
    proof {
        assert(r.deep_view() =~~= seq!["run"@] + extra + seq!["-d"@, image@]);
    }
    r
}

/// The start invocation for a container addressed by id or name.
pub fn start_by_id_or_name_invocation(name: &str) -> (r: Vec<String>)
    ensures
        r.deep_view() == seq!["start"@, name@],
{
    let mut r: Vec<String> = Vec::new();
    r.push(String::from_str("start"));
    r.push(name.to_owned());
    proof {
        assert(r.deep_view() =~~= seq!["start"@, name@]);
    }
    r
}

/// The stop invocation for a container addressed by id or name.
pub fn stop_by_id_or_name_invocation(name: &str) -> (r: Vec<String>)
    ensures
        r.deep_view() == seq!["stop"@, name@],
{
    let mut r: Vec<String> = Vec::new();
    r.push(String::from_str("stop"));
    r.push(name.to_owned());
    proof {
        assert(r.deep_view() =~~= seq!["stop"@, name@]);
    }
    r
}

} // verus!
