//! What the gateway is configured with: protocols and endpoints, pools of suppliers with their
//! keys, and access keys.

use vstd::prelude::*;

use crate::text;
use crate::text::same;

verus! {

pub const CHAT_PATH: &'static str = "/v1/chat/completions";

pub const RESPONSES_PATH: &'static str = "/v1/responses";

pub const MODELS_PATH: &'static str = "/v1/models";

pub const IMAGES_GENERATIONS_PATH: &'static str = "/v1/images/generations";

/// The protocols that a supplier speaks.
#[derive(Clone, Copy, Debug, PartialEq, Eq, Structural)]
pub enum ProtocolMode {
    Chat,
    Responses,
    Both,
}

/// The endpoints between which requests are converted.
#[derive(Clone, Copy, Debug, PartialEq, Eq, Structural)]
pub enum OpenAiEndpoint {
    Chat,
    Responses,
}

/// The protocol that a key is tested with.
#[derive(Clone, Copy, Debug, PartialEq, Eq, Structural)]
pub enum TestProtocol {
    Chat,
    Responses,
}

/// What is done to a request on its way to the supplier: from the inbound protocol to the
/// upstream one.
#[derive(Clone, Copy, Debug, PartialEq, Eq, Structural)]
pub enum ConversionMode {
    Direct,
    ChatToResponses,
    ResponsesToChat,
}

/// Where a request goes, and how it gets there.
#[derive(Clone, Copy, Debug, PartialEq, Eq, Structural)]
pub struct UpstreamPlan {
    pub upstream_endpoint: OpenAiEndpoint,
    pub conversion: ConversionMode,
}

impl ProtocolMode {
    pub open spec fn name(self) -> Seq<char> {
        match self {
            ProtocolMode::Chat => "chat"@,
            ProtocolMode::Responses => "responses"@,
            ProtocolMode::Both => "both"@,
        }
    }

    /// The name under which the mode is saved.
    pub fn as_str(&self) -> (name: &'static str)
        ensures
            name@ == self.name(),
    {
        match self {
            ProtocolMode::Chat => "chat",
            ProtocolMode::Responses => "responses",
            ProtocolMode::Both => "both",
        }
    }

    /// The mode of that name.
    pub open spec fn named(value: Seq<char>) -> Option<ProtocolMode> {
        if value == "chat"@ {
            Some(ProtocolMode::Chat)
        } else if value == "responses"@ {
            Some(ProtocolMode::Responses)
        } else if value == "both"@ {
            Some(ProtocolMode::Both)
        } else {
            None
        }
    }

    pub fn from_str(value: &str) -> (mode: Result<ProtocolMode, String>)
        ensures
            match mode {
                Ok(mode) => ProtocolMode::named(value@) == Some(mode),
                Err(message) => {
                    &&& ProtocolMode::named(value@) is None
                    &&& message@ == "protocol_mode must be chat, responses, or both"@
                },
            },
    {
        if same(value, "chat") {
            Ok(ProtocolMode::Chat)
        } else if same(value, "responses") {
            Ok(ProtocolMode::Responses)
        } else if same(value, "both") {
            Ok(ProtocolMode::Both)
        } else {
            Err("protocol_mode must be chat, responses, or both".to_string())
        }
    }
}

/// A mode is read back as it was saved.
pub proof fn protocol_mode_name_leads_back(mode: ProtocolMode)
    ensures
        ProtocolMode::named(mode.name()) == Some(mode),
{
    reveal_strlit("chat");
    reveal_strlit("responses");
    reveal_strlit("both");
    assert("chat"@.len() == 4 && "responses"@.len() == 9 && "both"@.len() == 4);
    assert("chat"@[0] != "both"@[0]);
}

impl OpenAiEndpoint {
    pub open spec fn at(path: Seq<char>) -> Option<OpenAiEndpoint> {
        if path == CHAT_PATH@ {
            Some(OpenAiEndpoint::Chat)
        } else if path == RESPONSES_PATH@ {
            Some(OpenAiEndpoint::Responses)
        } else {
            None
        }
    }

    pub fn from_path(path: &str) -> (endpoint: Option<OpenAiEndpoint>)
        ensures
            endpoint == OpenAiEndpoint::at(path@),
    {
        if same(path, CHAT_PATH) {
            Some(OpenAiEndpoint::Chat)
        } else if same(path, RESPONSES_PATH) {
            Some(OpenAiEndpoint::Responses)
        } else {
            None
        }
    }

    pub open spec fn location(self) -> Seq<char> {
        match self {
            OpenAiEndpoint::Chat => CHAT_PATH@,
            OpenAiEndpoint::Responses => RESPONSES_PATH@,
        }
    }

    pub fn path(self) -> (path: &'static str)
        ensures
            path@ == self.location(),
    {
        match self {
            OpenAiEndpoint::Chat => CHAT_PATH,
            OpenAiEndpoint::Responses => RESPONSES_PATH,
        }
    }
}

/// The path of an endpoint leads to that endpoint.
pub proof fn endpoint_path_leads_back(endpoint: OpenAiEndpoint)
    ensures
        OpenAiEndpoint::at(endpoint.location()) == Some(endpoint),
{
    reveal_strlit("/v1/chat/completions");
    reveal_strlit("/v1/responses");
    assert(CHAT_PATH@.len() == 20 && RESPONSES_PATH@.len() == 13);
}

impl TestProtocol {
    pub open spec fn name(self) -> Seq<char> {
        match self {
            TestProtocol::Chat => "chat"@,
            TestProtocol::Responses => "responses"@,
        }
    }

    /// The name under which the protocol is saved.
    pub fn as_str(self) -> (name: &'static str)
        ensures
            name@ == self.name(),
    {
        match self {
            TestProtocol::Chat => "chat",
            TestProtocol::Responses => "responses",
        }
    }

    /// The protocol of that name.
    pub open spec fn named(value: Seq<char>) -> Option<TestProtocol> {
        if value == "chat"@ {
            Some(TestProtocol::Chat)
        } else if value == "responses"@ {
            Some(TestProtocol::Responses)
        } else {
            None
        }
    }

    pub fn from_str(value: &str) -> (protocol: Result<TestProtocol, String>)
        ensures
            match protocol {
                Ok(protocol) => TestProtocol::named(value@) == Some(protocol),
                Err(message) => {
                    &&& TestProtocol::named(value@) is None
                    &&& message@ == "protocol must be chat or responses"@
                },
            },
    {
        if same(value, "chat") {
            Ok(TestProtocol::Chat)
        } else if same(value, "responses") {
            Ok(TestProtocol::Responses)
        } else {
            Err("protocol must be chat or responses".to_string())
        }
    }

    /// A saved protocol; any other text stands for none.
    pub fn from_saved(value: &str) -> (protocol: Option<TestProtocol>)
        ensures
            protocol == TestProtocol::named(value@),
    {
        match TestProtocol::from_str(value) {
            Ok(protocol) => Some(protocol),
            Err(_) => None,
        }
    }

    pub open spec fn endpoint_view(self) -> OpenAiEndpoint {
        match self {
            TestProtocol::Chat => OpenAiEndpoint::Chat,
            TestProtocol::Responses => OpenAiEndpoint::Responses,
        }
    }

    /// The endpoint that the protocol is spoken at.
    pub fn endpoint(self) -> (endpoint: OpenAiEndpoint)
        ensures
            endpoint == self.endpoint_view(),
    {
        match self {
            TestProtocol::Chat => OpenAiEndpoint::Chat,
            TestProtocol::Responses => OpenAiEndpoint::Responses,
        }
    }
}

/// A test protocol is read back as it was saved.
pub proof fn test_protocol_name_leads_back(protocol: TestProtocol)
    ensures
        TestProtocol::named(protocol.name()) == Some(protocol),
{
    reveal_strlit("chat");
    reveal_strlit("responses");
    assert("chat"@.len() == 4 && "responses"@.len() == 9);
}

/// The endpoints that a supplier of that mode serves.
pub open spec fn serves(mode: ProtocolMode, endpoint: OpenAiEndpoint) -> bool {
    match endpoint {
        OpenAiEndpoint::Chat => mode != ProtocolMode::Responses,
        OpenAiEndpoint::Responses => mode != ProtocolMode::Chat,
    }
}

/// A request goes straight to an endpoint that the supplier serves; otherwise it is converted for
/// the other one.
pub open spec fn plan_for(inbound: OpenAiEndpoint, mode: ProtocolMode) -> UpstreamPlan {
    if serves(mode, inbound) {
        UpstreamPlan { upstream_endpoint: inbound, conversion: ConversionMode::Direct }
    } else {
        match inbound {
            OpenAiEndpoint::Chat => UpstreamPlan {
                upstream_endpoint: OpenAiEndpoint::Responses,
                conversion: ConversionMode::ChatToResponses,
            },
            OpenAiEndpoint::Responses => UpstreamPlan {
                upstream_endpoint: OpenAiEndpoint::Chat,
                conversion: ConversionMode::ResponsesToChat,
            },
        }
    }
}

/// Where a request to that endpoint goes at a supplier of that mode.
pub fn upstream_plan(inbound: OpenAiEndpoint, upstream_mode: &ProtocolMode) -> (plan: UpstreamPlan)
    ensures
        plan == plan_for(inbound, *upstream_mode),
{
    match (inbound, upstream_mode) {
        (OpenAiEndpoint::Chat, ProtocolMode::Both | ProtocolMode::Chat) => UpstreamPlan {
            upstream_endpoint: OpenAiEndpoint::Chat,
            conversion: ConversionMode::Direct,
        },
        (OpenAiEndpoint::Responses, ProtocolMode::Both | ProtocolMode::Responses) => UpstreamPlan {
            upstream_endpoint: OpenAiEndpoint::Responses,
            conversion: ConversionMode::Direct,
        },
        (OpenAiEndpoint::Chat, ProtocolMode::Responses) => UpstreamPlan {
            upstream_endpoint: OpenAiEndpoint::Responses,
            conversion: ConversionMode::ChatToResponses,
        },
        (OpenAiEndpoint::Responses, ProtocolMode::Chat) => UpstreamPlan {
            upstream_endpoint: OpenAiEndpoint::Chat,
            conversion: ConversionMode::ResponsesToChat,
        },
    }
}

/// A request always goes to an endpoint that the supplier serves.
pub proof fn plan_is_served(inbound: OpenAiEndpoint, mode: ProtocolMode)
    ensures
        serves(mode, plan_for(inbound, mode).upstream_endpoint),
        plan_for(inbound, mode).conversion == ConversionMode::Direct
            <==> plan_for(inbound, mode).upstream_endpoint == inbound,
{
}

/// A set of suppliers that are tried in turn.
#[derive(Debug, PartialEq, Eq)]
pub struct PoolConfig {
    pub id: i64,
    pub name: String,
    pub note: String,
    pub is_active: bool,
    pub base_urls: Vec<BaseUrlConfig>,
}

/// A supplier.
#[derive(Debug, PartialEq, Eq)]
pub struct BaseUrlConfig {
    pub id: i64,
    pub pool_id: i64,
    pub name: String,
    pub base_url: String,
    pub protocol_mode: ProtocolMode,
    pub override_model: String,
    pub sort_order: i64,
    pub api_keys: Vec<ApiKeyConfig>,
    pub image_keys: Vec<ApiKeyConfig>,
}

/// A key of a supplier.
#[derive(Debug, PartialEq, Eq)]
pub struct ApiKeyConfig {
    pub id: i64,
    pub base_url_id: i64,
    pub api_key: String,
    pub sort_order: i64,
    pub manually_disabled: bool,
    pub test_model: String,
    pub test_protocol: Option<TestProtocol>,
}

/// A key by which a client uses a pool.
#[derive(Debug, PartialEq, Eq)]
pub struct AccessKeyConfig {
    pub id: i64,
    pub name: String,
    pub access_key: String,
    pub proxy_id: i64,
    pub image_proxy_id: Option<i64>,
    pub override_model: String,
    pub created_at: i64,
    pub updated_at: i64,
}

/// The first pool of that id.
pub open spec fn pool_of(pools: Seq<PoolConfig>, id: i64) -> Option<PoolConfig>
    decreases pools.len(),
{
    if pools.len() == 0 {
        None
    } else if pools[0].id == id {
        Some(pools[0])
    } else {
        pool_of(pools.skip(1), id)
    }
}

/// The first pool of that id.
pub fn find_pool(pools: &Vec<PoolConfig>, id: i64) -> (found: Option<&PoolConfig>)
    ensures
        match found {
            Some(pool) => pool_of(pools@, id) == Some(*pool),
            None => pool_of(pools@, id) is None,
        },
{
    let mut i: usize = 0;
    assert(pools@.skip(0) =~= pools@);
    while i < pools.len()
        invariant
            i <= pools@.len(),
            pool_of(pools@, id) == pool_of(pools@.skip(i as int), id),
        decreases pools@.len() - i,
    {
        assert(pools@.skip(i as int)[0] == pools@[i as int]);
        assert(pools@.skip(i as int).skip(1) =~= pools@.skip(i + 1));
        if pools[i].id == id {
            return Some(&pools[i]);
        }
        i = i + 1;
    }
    None
}

/// The model that requests are sent with in place of their own: that of the access key, or else
/// that of the supplier; a blank one stands for none.
pub open spec fn override_model_of(access_key: AccessKeyConfig, supplier: BaseUrlConfig) -> Option<
    Seq<char>,
> {
    let own = text::trim_view(access_key.override_model@);
    let common = text::trim_view(supplier.override_model@);
    if own.len() > 0 {
        Some(own)
    } else if common.len() > 0 {
        Some(common)
    } else {
        None
    }
}

/// The model that requests are sent with in place of their own.
pub fn effective_override_model<'a>(
    access_key: &'a AccessKeyConfig,
    base_url: &'a BaseUrlConfig,
) -> (model: Option<&'a str>)
    ensures
        text::opt_str_view(model) == override_model_of(*access_key, *base_url),
{
    let access_key_model = access_key.override_model.as_str().trim();
    if !access_key_model.is_empty() {
        return Some(access_key_model);
    }
    let supplier_model = base_url.override_model.as_str().trim();
    if !supplier_model.is_empty() {
        Some(supplier_model)
    } else {
        None
    }
}

} // verus!
