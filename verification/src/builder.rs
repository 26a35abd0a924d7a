//! The fluent configuration object for a runtime invocation: it accumulates
//! a name, a detach flag, an image, socket bindings, environment variables
//! and an action, and `build` validates the configuration and emits the
//! runtime's argument sequence.

use vstd::prelude::*;
use vstd::string::*;
use crate::action::action_str;
use crate::action::CreateAction;
use crate::error::DockerError;
use crate::error::DockerErrorKind;
use crate::image::image_str;
use crate::image::Image;
use crate::image::ImageView;
use crate::socket::Socket;
use crate::socket_map::format_socket_map;
use crate::socket_map::SocketMap;
use crate::socket_map::SocketMapView;
use crate::text::str_eq;

verus! {

/// The two mutually-exclusive publication modes: let the runtime auto-assign
/// every published port, or publish exactly the accumulated bindings, in the
/// order they were added. Switching modes discards prior bindings.
#[derive(Debug, PartialEq, Eq, Clone)]
pub enum BoundSockets {
    Dynamic,
    Static(Vec<SocketMap>),
}

pub ghost enum BoundSocketsView {
    Dynamic,
    Static(Seq<SocketMapView>),
}

impl View for BoundSockets {
    type V = BoundSocketsView;

    open spec fn view(&self) -> BoundSocketsView {
        match self {
            BoundSockets::Dynamic => BoundSocketsView::Dynamic,
            BoundSockets::Static(v) => BoundSocketsView::Static(v.deep_view()),
        }
    }
}

#[derive(Debug, Clone)]
pub struct ContainerCommandBuilder {
    pub name: Option<String>,
    pub detatched: bool,
    pub image: Option<Image>,
    pub sockets: BoundSockets,
    pub environment: Vec<(String, String)>,
    pub action: CreateAction,
}

pub ghost struct BuilderView {
    pub name: Option<Seq<char>>,
    pub detatched: bool,
    pub image: Option<ImageView>,
    pub sockets: BoundSocketsView,
    pub environment: Seq<(Seq<char>, Seq<char>)>,
    pub action: CreateAction,
}

impl View for ContainerCommandBuilder {
    type V = BuilderView;

    open spec fn view(&self) -> BuilderView {
        BuilderView {
            name: match self.name {
                Option::Some(n) => Option::Some(n@),
                Option::None => Option::None,
            },
            detatched: self.detatched,
            image: match self.image {
                Option::Some(i) => Option::Some(i@),
                Option::None => Option::None,
            },
            sockets: self.sockets@,
            environment: self.environment@.map_values(|p: (String, String)| (p.0@, p.1@)),
            action: self.action,
        }
    }
}

/// The position of the first entry with key `k`, or -1 if there is none.
pub open spec fn env_index_of(e: Seq<(Seq<char>, Seq<char>)>, k: Seq<char>) -> int
    decreases e.len(),
{
    if e.len() == 0 {
        -1
    } else if e[0].0 == k {
        0
    } else {
        let r = env_index_of(e.drop_first(), k);
        if r < 0 {
            -1
        } else {
            r + 1
        }
    }
}

pub proof fn lemma_env_index_of_ensures(e: Seq<(Seq<char>, Seq<char>)>, k: Seq<char>)
    ensures
        env_index_of(e, k) == -1 ==> (forall|j: int| 0 <= j < e.len() ==> (#[trigger] e[j]).0 != k),
        env_index_of(e, k) != -1 ==> {
            let i = env_index_of(e, k);
            &&& 0 <= i < e.len()
            &&& e[i].0 == k
            &&& (forall|j: int| 0 <= j < i ==> (#[trigger] e[j]).0 != k)
        },
    decreases e.len(),
{
    if e.len() > 0 && e[0].0 != k {
        let t = e.drop_first();
        lemma_env_index_of_ensures(t, k);
        let r = env_index_of(t, k);
        if r < 0 {
            assert forall|j: int| 0 <= j < e.len() implies (#[trigger] e[j]).0 != k by {
                if j > 0 {
                    assert(t[j - 1] == e[j]);
                }
            }
        } else {
            assert(t[r] == e[r + 1]);
            assert forall|j: int| 0 <= j < r + 1 implies (#[trigger] e[j]).0 != k by {
                if j > 0 {
                    assert(t[j - 1] == e[j]);
                }
            }
        }
    }
}

/// Setting a key that is present replaces its value in place; a new key is
/// appended. Keys stay unique and insertion order is kept.
pub open spec fn env_update(
    e: Seq<(Seq<char>, Seq<char>)>,
    k: Seq<char>,
    v: Seq<char>,
) -> Seq<(Seq<char>, Seq<char>)> {
    let i = env_index_of(e, k);
    if i < 0 {
        e.push((k, v))
    } else {
        e.update(i, (k, v))
    }
}

/// No two environment entries share a key.
pub open spec fn env_keys_unique(e: Seq<(Seq<char>, Seq<char>)>) -> bool {
    forall|i: int, j: int| 0 <= i < j < e.len() ==> (#[trigger] e[i]).0 != (#[trigger] e[j]).0
}

/// The environment stays a mapping: setting a variable never introduces a
/// duplicate key.
pub proof fn lemma_env_update_keeps_keys_unique(
    e: Seq<(Seq<char>, Seq<char>)>,
    k: Seq<char>,
    v: Seq<char>,
)
    requires
        env_keys_unique(e),
    ensures
        env_keys_unique(env_update(e, k, v)),
{
    lemma_env_index_of_ensures(e, k);
}

/// The environment flags of an invocation, one quadruple per entry, in
/// entry order.
pub open spec fn env_args(e: Seq<(Seq<char>, Seq<char>)>) -> Seq<Seq<char>>
    decreases e.len(),
{
    if e.len() == 0 {
        Seq::<Seq<char>>::empty()
    } else {
        seq!["-e"@, e[0].0, "="@, e[0].1] + env_args(e.drop_first())
    }
}

pub proof fn lemma_env_args_append(a: Seq<(Seq<char>, Seq<char>)>, b: Seq<(Seq<char>, Seq<char>)>)
    ensures
        env_args(a + b) == env_args(a) + env_args(b),
    decreases a.len(),
{
    if a.len() == 0 {
        assert(a + b =~= b);
        assert(env_args(a) + env_args(b) =~= env_args(b));
    } else {
        assert((a + b).len() > 0);
        assert((a + b)[0] == a[0]);
        assert((a + b).drop_first() =~= a.drop_first() + b);
        lemma_env_args_append(a.drop_first(), b);
        assert(env_args(a + b) =~= env_args(a) + env_args(b));
    }
}

/// The publish flags of an explicit binding list, one pair per binding, in
/// binding order.
pub open spec fn publish_args(ms: Seq<SocketMapView>) -> Seq<Seq<char>>
    decreases ms.len(),
{
    if ms.len() == 0 {
        Seq::<Seq<char>>::empty()
    } else {
        seq!["-p"@, format_socket_map(ms[0])] + publish_args(ms.drop_first())
    }
}

pub proof fn lemma_publish_args_append(a: Seq<SocketMapView>, b: Seq<SocketMapView>)
    ensures
        publish_args(a + b) == publish_args(a) + publish_args(b),
    decreases a.len(),
{
    if a.len() == 0 {
        assert(a + b =~= b);
        assert(publish_args(a) + publish_args(b) =~= publish_args(b));
    } else {
        assert((a + b)[0] == a[0]);
        assert((a + b).drop_first() =~= a.drop_first() + b);
        lemma_publish_args_append(a.drop_first(), b);
        assert(publish_args(a + b) =~= publish_args(a) + publish_args(b));
    }
}

/// The socket part of an invocation: one auto-publish flag in `Dynamic`
/// mode, else one publish flag per binding.
pub open spec fn socket_args(s: BoundSocketsView) -> Seq<Seq<char>> {
    match s {
        BoundSocketsView::Dynamic => seq!["-P"@],
        BoundSocketsView::Static(ms) => publish_args(ms),
    }
}

pub open spec fn name_args(n: Option<Seq<char>>) -> Seq<Seq<char>> {
    match n {
        Option::Some(s) => seq!["--name"@, s],
        Option::None => Seq::<Seq<char>>::empty(),
    }
}

pub open spec fn detach_args(detatched: bool) -> Seq<Seq<char>> {
    if detatched {
        seq!["-d"@]
    } else {
        Seq::<Seq<char>>::empty()
    }
}

/// What `build` emits. A detached `Create` is rejected before anything else,
/// a missing image after that; otherwise the argument sequence is the action
/// token, the name flag, the environment flags, the socket flags, the detach
/// flag and finally the image reference.
pub open spec fn build_spec(b: BuilderView) -> Result<Seq<Seq<char>>, DockerErrorKind> {
    if b.detatched && b.action == CreateAction::Create {
        Err(DockerErrorKind::InvalidConfiguration)
    } else {
        match b.image {
            Option::None => Err(DockerErrorKind::MissingConfiguration),
            Option::Some(im) => Ok(
                seq![action_str(b.action)] + name_args(b.name) + env_args(b.environment)
                    + socket_args(b.sockets) + detach_args(b.detatched) + seq![image_str(im)],
            ),
        }
    }
}

impl ContainerCommandBuilder {
    /// The builder's invariant: the environment is a mapping, so no two
    /// entries share a key. `new` establishes it and every fluent method
    /// preserves it.
    pub open spec fn wf(&self) -> bool {
        env_keys_unique(self@.environment)
    }

    /// A fresh builder: no name, not detached, no image, dynamic sockets,
    /// no environment, `Create` action.
    pub fn new() -> (r: Self)
        ensures
            r.name is None,
            !r.detatched,
            r.image is None,
            r.sockets@ == BoundSocketsView::Dynamic,
            r.environment@.len() == 0,
            r.action == CreateAction::Create,
            r.wf(),
    {
        Self {
            name: Option::None,
            detatched: false,
            sockets: BoundSockets::Dynamic,
            image: Option::None,
            environment: Vec::new(),
            action: CreateAction::Create,
        }
    }

    pub fn detached(self) -> (r: Self)
        ensures
            r@ == (BuilderView { detatched: true, ..self@ }),
            self.wf() ==> r.wf(),
    {
        let mut b = self;
        b.detatched = true;
        b
    }

    /// Adds one explicit binding: in `Dynamic` mode the binding list starts
    /// over with this binding alone, in `Static` mode it is appended.
    pub fn socket(self, socket: SocketMap) -> (r: Self)
        ensures
            r@ == (BuilderView {
                sockets: match self@.sockets {
                    BoundSocketsView::Dynamic => BoundSocketsView::Static(seq![socket@]),
                    BoundSocketsView::Static(ms) => BoundSocketsView::Static(ms.push(socket@)),
                },
                ..self@
            }),
            self.wf() ==> r.wf(),
    {
        let mut b = self;
        match b.sockets {
            BoundSockets::Dynamic => {
                let ghost sv = socket@;
                let mut v: Vec<SocketMap> = Vec::new();
                v.push(socket);
                proof {
                    assert(v.deep_view() =~= seq![sv]);
                }
                b.sockets = BoundSockets::Static(v);
            },
            BoundSockets::Static(mut ms) => {
                let ghost old_ms = ms.deep_view();
                ms.push(socket);
                proof {
                    assert(ms.deep_view() =~= old_ms.push(socket@));
                }
                b.sockets = BoundSockets::Static(ms);
            },
        }
        b
    }

    /// Adds a binding whose outer port equals the socket's own port.
    pub fn selfbound_socket(self, socket: Socket) -> (r: Self)
        ensures
            r@ == (BuilderView {
                sockets: match self@.sockets {
                    BoundSocketsView::Dynamic => BoundSocketsView::Static(
                        seq![
                            (SocketMapView { outer_port: socket.port, inner_socket: socket@ }),
                        ],
                    ),
                    BoundSocketsView::Static(ms) => BoundSocketsView::Static(
                        ms.push(SocketMapView { outer_port: socket.port, inner_socket: socket@ }),
                    ),
                },
                ..self@
            }),
            self.wf() ==> r.wf(),
    {
        self.socket(SocketMap::self_bound(socket))
    }

    /// Switches to runtime-assigned publication, discarding any explicit
    /// bindings accumulated so far.
    pub fn dynamic_socket(self) -> (r: Self)
        ensures
            r@ == (BuilderView { sockets: BoundSocketsView::Dynamic, ..self@ }),
            self.wf() ==> r.wf(),
    {
        let mut b = self;
        b.sockets = BoundSockets::Dynamic;
        b
    }

    pub fn image(self, image: Image) -> (r: Self)
        ensures
            r@ == (BuilderView { image: Option::Some(image@), ..self@ }),
            self.wf() ==> r.wf(),
    {
        let mut b = self;
        b.image = Option::Some(image);
        b
    }

    /// Sets one environment variable: an existing key's value is replaced
    /// in place, a new key is appended.
    pub fn with_environment_variable(self, key: &str, value: &str) -> (r: Self)
        ensures
            r@ == (BuilderView { environment: env_update(self@.environment, key@, value@), ..self@ }),
            self.wf() ==> r.wf(),
    {
        proof {
            if env_keys_unique(self@.environment) {
                lemma_env_update_keeps_keys_unique(self@.environment, key@, value@);
            }
        }
        let mut b = self;
        let ghost e = b@.environment;
        let mut i: usize = 0;
        while i < b.environment.len()
            invariant
                0 <= i <= b.environment.len(),
                b == self,
                e == b@.environment,
                forall|j: int| 0 <= j < i ==> (#[trigger] e[j]).0 != key@,
            decreases b.environment.len() - i,
        {
            proof {
                assert(e[i as int] == (b.environment@[i as int].0@, b.environment@[i as int].1@));
            }
            if str_eq(b.environment[i].0.as_str(), key) {
                proof {
                    lemma_env_index_of_ensures(e, key@);
                    assert(env_index_of(e, key@) == i as int);
                }
                let pair = b.environment.remove(i);
                b.environment.insert(i, (pair.0, value.to_owned()));
                proof {
                    assert(b@.environment =~~= e.update(i as int, (key@, value@)));
                }
                return b;
            }
            i += 1;
        }
        proof {
            lemma_env_index_of_ensures(e, key@);
            assert(env_index_of(e, key@) == -1);
        }
        b.environment.push((key.to_owned(), value.to_owned()));
        proof {
            assert(b@.environment =~~= e.push((key@, value@)));
        }
        b
    }

    pub fn named(self, name: &str) -> (r: Self)
        ensures
            r@ == (BuilderView { name: Option::Some(name@), ..self@ }),
            self.wf() ==> r.wf(),
    {
        let mut b = self;
        b.name = Option::Some(name.to_owned());
        b
    }

    pub fn action(self, action: CreateAction) -> (r: Self)
        ensures
            r@ == (BuilderView { action: action, ..self@ }),
            self.wf() ==> r.wf(),
    {
        let mut b = self;
        b.action = action;
        b
    }

    /// Validates the configuration and emits the runtime's argument
    /// sequence, exactly as `build_spec` describes it.
    pub fn build(&self) -> (r: Result<Vec<String>, DockerError>)
        ensures
            match r {
                Ok(args) => build_spec(self@) == Ok::<Seq<Seq<char>>, DockerErrorKind>(
                    args.deep_view(),
                ),
                Err(e) => build_spec(self@) == Err::<Seq<Seq<char>>, DockerErrorKind>(e.kind),
            },
    {
        if self.detatched && self.action == CreateAction::Create {
            return Err(
                DockerError::new(
                    DockerErrorKind::InvalidConfiguration,
                    "can't create a detached container",
                ),
            );
        }
        let image = match &self.image {
            Option::Some(image) => image,
            Option::None => {
                return Err(
                    DockerError::new(DockerErrorKind::MissingConfiguration, "no image configured"),
                );
            },
        };
        let mut args: Vec<String> = Vec::new();
        args.push(self.action.format());
        if let Option::Some(name) = &self.name {
            args.push(String::from_str("--name"));
            args.push(name.clone());
        }
        proof {
            assert(args.deep_view() =~~= seq![action_str(self@.action)] + name_args(self@.name));
        }
        let ghost pre_env = args.deep_view();
        let mut i: usize = 0;
        proof {
            assert(self@.environment.take(0) =~= Seq::<(Seq<char>, Seq<char>)>::empty());
        }
        while i < self.environment.len()
            invariant
                0 <= i <= self.environment.len(),
                pre_env == seq![action_str(self@.action)] + name_args(self@.name),
                args.deep_view() == pre_env + env_args(self@.environment.take(i as int)),
            decreases self.environment.len() - i,
        {
            let ghost e = self@.environment;
            let ghost before = args.deep_view();
            args.push(String::from_str("-e"));
            args.push(self.environment[i].0.clone());
            args.push(String::from_str("="));
            args.push(self.environment[i].1.clone());
            proof {
                let k = i as int;
                assert(e[k] == (self.environment@[k].0@, self.environment@[k].1@));
                assert(e.take(i as int + 1) =~= e.take(i as int) + seq![e[i as int]]);
                lemma_env_args_append(e.take(i as int), seq![e[i as int]]);
                assert(seq![e[i as int]].drop_first() =~= Seq::<(Seq<char>, Seq<char>)>::empty());
                assert(env_args(Seq::<(Seq<char>, Seq<char>)>::empty()) =~= Seq::<
                    Seq<char>,
                >::empty());
                assert(env_args(seq![e[i as int]]) =~~= seq![
                    "-e"@,
                    e[i as int].0,
                    "="@,
                    e[i as int].1,
                ]);
                assert(args.deep_view() =~~= before + seq![
                    "-e"@,
                    e[i as int].0,
                    "="@,
                    e[i as int].1,
                ]);
                assert(args.deep_view() =~~= pre_env + env_args(e.take(i as int + 1)));
            }
            i += 1;
        }
        proof {
            assert(self@.environment.take(self.environment.len() as int) =~= self@.environment);
        }
        let ghost pre_sockets = args.deep_view();
        match &self.sockets {
            BoundSockets::Dynamic => {
                let ghost before = args.deep_view();
                args.push(String::from_str("-P"));
                proof {
                    assert(args.deep_view() =~~= before + seq!["-P"@]);
                }
            },
            BoundSockets::Static(socks) => {
                let mut j: usize = 0;
                proof {
                    assert(socks.deep_view().take(0) =~= Seq::<SocketMapView>::empty());
                }
                while j < socks.len()
                    invariant
                        0 <= j <= socks.len(),
                        pre_sockets == seq![action_str(self@.action)] + name_args(self@.name)
                            + env_args(self@.environment),
                        args.deep_view() == pre_sockets + publish_args(
                            socks.deep_view().take(j as int),
                        ),
                    decreases socks.len() - j,
                {
                    let ghost ms = socks.deep_view();
                    let ghost before = args.deep_view();
                    args.push(String::from_str("-p"));
                    args.push(socks[j].format());
                    proof {
                        assert(ms[j as int] == socks@[j as int]@);
                        assert(ms.take(j as int + 1) =~= ms.take(j as int) + seq![ms[j as int]]);
                        lemma_publish_args_append(ms.take(j as int), seq![ms[j as int]]);
                        assert(seq![ms[j as int]].drop_first() =~= Seq::<SocketMapView>::empty());
                        assert(publish_args(Seq::<SocketMapView>::empty()) =~= Seq::<
                            Seq<char>,
                        >::empty());
                        assert(publish_args(seq![ms[j as int]]) =~~= seq![
                            "-p"@,
                            format_socket_map(ms[j as int]),
                        ]);
                        assert(args.deep_view() =~~= before + seq![
                            "-p"@,
                            format_socket_map(ms[j as int]),
                        ]);
                        assert(args.deep_view() =~~= pre_sockets + publish_args(
                            ms.take(j as int + 1),
                        ));
                    }
                    j += 1;
                }
                proof {
                    assert(socks.deep_view().take(socks.len() as int) =~= socks.deep_view());
                }
            },
        }
        proof {
            assert(args.deep_view() == seq![action_str(self@.action)] + name_args(self@.name)
                + env_args(self@.environment) + socket_args(self@.sockets));
        }
        let ghost pre_detach = args.deep_view();
        if self.detatched {
            let ghost before = args.deep_view();
            args.push(String::from_str("-d"));
            proof {
                assert(args.deep_view() =~~= before + seq!["-d"@]);
            }
        }
        let ghost before_image = args.deep_view();
        args.push(image.format());
        proof {
            assert(args.deep_view() =~~= before_image + seq![image_str(image@)]);
            assert(args.deep_view() =~~= seq![action_str(self@.action)] + name_args(self@.name)
                + env_args(self@.environment) + socket_args(self@.sockets) + detach_args(
                self@.detatched,
            ) + seq![image_str(image@)]);
        }
        Ok(args)
    }
}

impl Default for ContainerCommandBuilder {
    /// The same configuration as `new`.
    fn default() -> (r: Self)
        ensures
            r.name is None,
            !r.detatched,
            r.image is None,
            r.sockets@ == BoundSocketsView::Dynamic,
            r.environment@.len() == 0,
            r.action == CreateAction::Create,
    {
        ContainerCommandBuilder::new()
    }
}

/// A detached `Create` invocation is invalid whatever else is configured.
pub proof fn lemma_build_detached_create_invalid(b: BuilderView)
    requires
        b.detatched,
        b.action == CreateAction::Create,
    ensures
        build_spec(b) == Err::<Seq<Seq<char>>, DockerErrorKind>(
            DockerErrorKind::InvalidConfiguration,
        ),
{
}

/// An otherwise-valid configuration without an image never builds.
pub proof fn lemma_build_missing_image(b: BuilderView)
    requires
        b.image is None,
        !(b.detatched && b.action == CreateAction::Create),
    ensures
        build_spec(b) == Err::<Seq<Seq<char>>, DockerErrorKind>(
            DockerErrorKind::MissingConfiguration,
        ),
{
}

} // verus!
