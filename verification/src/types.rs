//! The chat service's data model: users, guilds, channels, messages, read
//! states, gateway events and per-guild notification settings.
use crate::store::StrMap;
use crate::text::{parse_u128, parse_unsigned};
use vstd::prelude::*;

verus! {

pub const CHANNEL_GUILD_TEXT: i32 = 0;

pub const CHANNEL_DM: i32 = 1;

pub const CHANNEL_GUILD_VOICE: i32 = 2;

pub const CHANNEL_GROUP_DM: i32 = 3;

pub const CHANNEL_GUILD_CATEGORY: i32 = 4;

pub const CHANNEL_GUILD_LINK: i32 = 998;

pub const CHANNEL_DM_PERSONAL_NOTES: i32 = 999;

pub const MESSAGE_NOTIFICATIONS_ALL_MESSAGES: i32 = 0;

pub const MESSAGE_NOTIFICATIONS_ONLY_MENTIONS: i32 = 1;

pub const MESSAGE_NOTIFICATIONS_NO_MESSAGES: i32 = 2;

pub const MESSAGE_NOTIFICATIONS_INHERIT: i32 = 3;

#[derive(Debug, Default)]
pub struct WellKnownFluxerResponse {
    pub api_code_version: u64,
    pub endpoints: WellKnownEndpoints,
    pub features: WellKnownFeatures,
}

#[derive(Debug, Default)]
pub struct WellKnownEndpoints {
    pub api: String,
    pub gateway: String,
    pub media: String,
    pub webapp: String,
}

#[derive(Debug, Default)]
pub struct WellKnownFeatures {
    pub voice_enabled: bool,
    pub sms_mfa_enabled: bool,
    pub self_hosted: bool,
}

#[derive(Debug, Default, Clone)]
pub struct HandoffInitiateResponse {
    pub code: String,
    pub expires_at: String,
}

#[derive(Debug, Default, Clone)]
pub struct HandoffStatusResponse {
    pub status: String,
    pub token: Option<String>,
    pub user_id: Option<String>,
}

#[derive(Debug, Default, Clone)]
pub struct GatewayBotResponse {
    pub url: String,
    pub shards: u64,
}

#[derive(Debug, Default)]
pub struct UserPrivateResponse {
    pub id: String,
    pub username: String,
    pub discriminator: String,
    pub global_name: Option<String>,
    pub avatar: Option<String>,
    pub bot: bool,
    pub system: bool,
    pub verified: bool,
    pub email: Option<String>,
}

#[derive(Debug, Default)]
pub struct UserPartialResponse {
    pub id: String,
    pub username: String,
    pub discriminator: String,
    pub global_name: Option<String>,
    pub avatar: Option<String>,
    pub bot: bool,
    pub system: bool,
}

impl Clone for UserPartialResponse {
    fn clone(&self) -> (r: Self)
        ensures
            r == *self,
    {
        UserPartialResponse {
            id: self.id.clone(),
            username: self.username.clone(),
            discriminator: self.discriminator.clone(),
            global_name: self.global_name.clone(),
            avatar: self.avatar.clone(),
            bot: self.bot,
            system: self.system,
        }
    }
}

impl Clone for UserPrivateResponse {
    fn clone(&self) -> (r: Self)
        ensures
            r == *self,
    {
        UserPrivateResponse {
            id: self.id.clone(),
            username: self.username.clone(),
            discriminator: self.discriminator.clone(),
            global_name: self.global_name.clone(),
            avatar: self.avatar.clone(),
            bot: self.bot,
            system: self.system,
            verified: self.verified,
            email: self.email.clone(),
        }
    }
}

#[derive(Debug, Default)]
pub struct GuildResponse {
    pub id: String,
    pub name: String,
    pub icon: Option<String>,
    pub owner_id: String,
    pub permissions: Option<String>,
    pub default_message_notifications: i32,
}

impl Clone for GuildResponse {
    fn clone(&self) -> (r: Self)
        ensures
            r == *self,
    {
        GuildResponse {
            id: self.id.clone(),
            name: self.name.clone(),
            icon: self.icon.clone(),
            owner_id: self.owner_id.clone(),
            permissions: self.permissions.clone(),
            default_message_notifications: self.default_message_notifications,
        }
    }
}

#[derive(Debug, Default)]
pub struct GuildMemberResponse {
    pub user: UserPartialResponse,
    pub nick: Option<String>,
    pub roles: Vec<String>,
    pub mute: bool,
    pub deaf: bool,
}

impl GuildMemberResponse {
    /// Same member record: equal fields, the role list compared by its contents.
    pub open spec fn eqv(&self, o: &Self) -> bool {
        &&& self.user == o.user
        &&& self.nick == o.nick
        &&& self.roles@ == o.roles@
        &&& self.mute == o.mute
        &&& self.deaf == o.deaf
    }
}

impl Clone for GuildMemberResponse {
    fn clone(&self) -> (r: Self)
        ensures
            r.eqv(self),
    {
        let roles = self.roles.clone();
        assert(roles@ =~= self.roles@);
        GuildMemberResponse {
            user: self.user.clone(),
            nick: self.nick.clone(),
            roles,
            mute: self.mute,
            deaf: self.deaf,
        }
    }
}

#[derive(Debug, Default)]
pub struct PermissionOverwrite {
    pub id: String,
    pub kind: i32,
    pub allow: String,
    pub deny: String,
}

impl Clone for PermissionOverwrite {
    fn clone(&self) -> (r: Self)
        ensures
            r == *self,
    {
        PermissionOverwrite {
            id: self.id.clone(),
            kind: self.kind,
            allow: self.allow.clone(),
            deny: self.deny.clone(),
        }
    }
}

#[derive(Debug, Default)]
pub struct ChannelResponse {
    pub id: String,
    pub guild_id: Option<String>,
    pub name: String,
    pub topic: Option<String>,
    pub icon: Option<String>,
    pub owner_id: Option<String>,
    pub kind: i32,
    pub raw_kind: i32,
    pub position: i32,
    pub parent_id: Option<String>,
    pub bitrate: Option<i32>,
    pub user_limit: Option<i32>,
    pub rtc_region: Option<String>,
    pub last_message_id: Option<String>,
    pub recipients: Vec<UserPartialResponse>,
    pub url: Option<String>,
    pub permission_overwrites: Vec<PermissionOverwrite>,
}

/// The channel type the API reports: the `type` field, unless only `kind` was set.
pub open spec fn spec_channel_type(c: ChannelResponse) -> i32 {
    if c.raw_kind != 0 || c.kind == 0 {
        c.raw_kind
    } else {
        c.kind
    }
}

impl ChannelResponse {
    /// Same channel record: equal fields, lists compared by their contents.
    pub open spec fn eqv(&self, o: &Self) -> bool {
        &&& self.id == o.id
        &&& self.guild_id == o.guild_id
        &&& self.name == o.name
        &&& self.topic == o.topic
        &&& self.icon == o.icon
        &&& self.owner_id == o.owner_id
        &&& self.kind == o.kind
        &&& self.raw_kind == o.raw_kind
        &&& self.position == o.position
        &&& self.parent_id == o.parent_id
        &&& self.bitrate == o.bitrate
        &&& self.user_limit == o.user_limit
        &&& self.rtc_region == o.rtc_region
        &&& self.last_message_id == o.last_message_id
        &&& self.recipients@ == o.recipients@
        &&& self.url == o.url
        &&& self.permission_overwrites@ == o.permission_overwrites@
    }

    /// The channel's type: `type` when it is set (or `kind` is not), else `kind`.
    pub fn channel_type(&self) -> (r: i32)
        ensures
            r == spec_channel_type(*self),
    {
        if self.raw_kind != 0 || self.kind == 0 {
            self.raw_kind
        } else {
            self.kind
        }
    }
}

impl Clone for ChannelResponse {
    fn clone(&self) -> (r: Self)
        ensures
            r.eqv(self),
    {
        let recipients = self.recipients.clone();
        assert(recipients@ =~= self.recipients@);
        let permission_overwrites = self.permission_overwrites.clone();
        assert(permission_overwrites@ =~= self.permission_overwrites@);
        ChannelResponse {
            id: self.id.clone(),
            guild_id: self.guild_id.clone(),
            name: self.name.clone(),
            topic: self.topic.clone(),
            icon: self.icon.clone(),
            owner_id: self.owner_id.clone(),
            kind: self.kind,
            raw_kind: self.raw_kind,
            position: self.position,
            parent_id: self.parent_id.clone(),
            bitrate: self.bitrate,
            user_limit: self.user_limit,
            rtc_region: self.rtc_region.clone(),
            last_message_id: self.last_message_id.clone(),
            recipients,
            url: self.url.clone(),
            permission_overwrites,
        }
    }
}

#[derive(Debug, Default)]
pub struct MessageAttachmentResponse {
    pub id: String,
    pub filename: String,
    pub url: Option<String>,
    /// CDN proxy URL; preferred for opening media when present.
    pub proxy_url: Option<String>,
    pub content_type: Option<String>,
    pub size: Option<u64>,
}

impl Clone for MessageAttachmentResponse {
    fn clone(&self) -> (r: Self)
        ensures
            r == *self,
    {
        MessageAttachmentResponse {
            id: self.id.clone(),
            filename: self.filename.clone(),
            url: self.url.clone(),
            proxy_url: self.proxy_url.clone(),
            content_type: self.content_type.clone(),
            size: self.size,
        }
    }
}

#[derive(Debug, Default)]
pub struct EmbedMediaResponse {
    pub url: Option<String>,
    pub proxy_url: Option<String>,
}

impl Clone for EmbedMediaResponse {
    fn clone(&self) -> (r: Self)
        ensures
            r == *self,
    {
        EmbedMediaResponse { url: self.url.clone(), proxy_url: self.proxy_url.clone() }
    }
}

#[derive(Debug, Default)]
pub struct GuildEmojiResponse {
    pub id: String,
    pub name: String,
    pub animated: bool,
}

impl Clone for GuildEmojiResponse {
    fn clone(&self) -> (r: Self)
        ensures
            r == *self,
    {
        GuildEmojiResponse { id: self.id.clone(), name: self.name.clone(), animated: self.animated }
    }
}

#[derive(Debug, Default)]
pub struct GuildRoleResponse {
    pub id: String,
    pub name: String,
    /// Packed RGB colour; 0 means the default styling.
    pub color: u32,
    pub position: i32,
}

impl Clone for GuildRoleResponse {
    fn clone(&self) -> (r: Self)
        ensures
            r == *self,
    {
        GuildRoleResponse {
            id: self.id.clone(),
            name: self.name.clone(),
            color: self.color,
            position: self.position,
        }
    }
}

#[derive(Debug, Default)]
pub struct ReactionEmojiResponse {
    pub id: Option<String>,
    pub name: String,
    pub animated: bool,
}

impl Clone for ReactionEmojiResponse {
    fn clone(&self) -> (r: Self)
        ensures
            r == *self,
    {
        ReactionEmojiResponse { id: self.id.clone(), name: self.name.clone(), animated: self.animated }
    }
}

#[derive(Debug, Default)]
pub struct MessageReactionResponse {
    pub emoji: ReactionEmojiResponse,
    pub count: u64,
    pub me: bool,
}

impl Clone for MessageReactionResponse {
    fn clone(&self) -> (r: Self)
        ensures
            r == *self,
    {
        MessageReactionResponse { emoji: self.emoji.clone(), count: self.count, me: self.me }
    }
}

#[derive(Debug, Default)]
pub struct MessageReferenceResponse {
    pub channel_id: String,
    pub message_id: String,
    pub guild_id: Option<String>,
    pub reference_type: i32,
}

impl Clone for MessageReferenceResponse {
    fn clone(&self) -> (r: Self)
        ensures
            r == *self,
    {
        MessageReferenceResponse {
            channel_id: self.channel_id.clone(),
            message_id: self.message_id.clone(),
            guild_id: self.guild_id.clone(),
            reference_type: self.reference_type,
        }
    }
}

#[derive(Debug, Default, Clone)]
pub struct MessageReferenceRequest {
    pub message_id: String,
    pub channel_id: Option<String>,
    pub guild_id: Option<String>,
    pub reference_type: Option<i32>,
}

#[derive(Debug, Default)]
pub struct ReadStateResponse {
    pub id: String,
    pub last_message_id: Option<String>,
    pub mention_count: u64,
}

#[derive(Debug, Default)]
pub struct EmbedAuthorResponse {
    pub name: String,
    pub url: Option<String>,
}

impl Clone for EmbedAuthorResponse {
    fn clone(&self) -> (r: Self)
        ensures
            r == *self,
    {
        EmbedAuthorResponse { name: self.name.clone(), url: self.url.clone() }
    }
}

#[derive(Debug, Default)]
pub struct EmbedFooterResponse {
    pub text: String,
}

impl Clone for EmbedFooterResponse {
    fn clone(&self) -> (r: Self)
        ensures
            r == *self,
    {
        EmbedFooterResponse { text: self.text.clone() }
    }
}

#[derive(Debug, Default)]
pub struct EmbedFieldResponse {
    pub name: String,
    pub value: String,
    pub inline: bool,
}

impl Clone for EmbedFieldResponse {
    fn clone(&self) -> (r: Self)
        ensures
            r == *self,
    {
        EmbedFieldResponse { name: self.name.clone(), value: self.value.clone(), inline: self.inline }
    }
}

#[derive(Debug, Default)]
pub struct MessageEmbedResponse {
    pub embed_type: String,
    pub url: Option<String>,
    pub title: Option<String>,
    pub description: Option<String>,
    pub color: Option<i64>,
    pub author: Option<EmbedAuthorResponse>,
    pub footer: Option<EmbedFooterResponse>,
    pub fields: Vec<EmbedFieldResponse>,
    pub provider: Option<EmbedAuthorResponse>,
    pub image: Option<EmbedMediaResponse>,
    pub thumbnail: Option<EmbedMediaResponse>,
}

impl MessageEmbedResponse {
    /// Same embed: equal fields, the field list compared by its contents.
    pub open spec fn eqv(&self, o: &Self) -> bool {
        &&& self.embed_type == o.embed_type
        &&& self.url == o.url
        &&& self.title == o.title
        &&& self.description == o.description
        &&& self.color == o.color
        &&& self.author == o.author
        &&& self.footer == o.footer
        &&& self.fields@ == o.fields@
        &&& self.provider == o.provider
        &&& self.image == o.image
        &&& self.thumbnail == o.thumbnail
    }
}

impl Clone for MessageEmbedResponse {
    fn clone(&self) -> (r: Self)
        ensures
            r.eqv(self),
    {
        let fields = self.fields.clone();
        assert(fields@ =~= self.fields@);
        MessageEmbedResponse {
            embed_type: self.embed_type.clone(),
            url: self.url.clone(),
            title: self.title.clone(),
            description: self.description.clone(),
            color: self.color,
            author: self.author.clone(),
            footer: self.footer.clone(),
            fields,
            provider: self.provider.clone(),
            image: self.image.clone(),
            thumbnail: self.thumbnail.clone(),
        }
    }
}

#[derive(Debug, Default)]
pub struct MessageResponse {
    pub id: String,
    pub channel_id: String,
    pub author: UserPartialResponse,
    pub message_type: i32,
    pub tts: bool,
    pub content: String,
    pub timestamp: String,
    pub edited_timestamp: Option<String>,
    pub pinned: bool,
    pub mention_everyone: bool,
    pub mentions: Vec<UserPartialResponse>,
    pub mention_roles: Vec<String>,
    pub attachments: Vec<MessageAttachmentResponse>,
    pub channel_type: Option<i32>,
    pub embeds: Vec<MessageEmbedResponse>,
    pub reactions: Vec<MessageReactionResponse>,
    pub message_reference: Option<MessageReferenceResponse>,
    pub referenced_message: Option<Box<MessageResponse>>,
    pub member: Option<GuildMemberResponse>,
}

/// Two embed lists hold the same embeds in the same order.
pub open spec fn embeds_eqv(a: Seq<MessageEmbedResponse>, b: Seq<MessageEmbedResponse>) -> bool {
    a.len() == b.len() && forall|i: int| 0 <= i < a.len() ==> #[trigger] a[i].eqv(&b[i])
}

/// The same optional member record.
pub open spec fn member_eqv(a: Option<GuildMemberResponse>, b: Option<GuildMemberResponse>) -> bool {
    match (a, b) {
        (None, None) => true,
        (Some(x), Some(y)) => x.eqv(&y),
        _ => false,
    }
}

impl MessageResponse {
    /// Same message record, the referenced message included.
    pub open spec fn eqv(&self, o: &Self) -> bool
        decreases self,
    {
        &&& self.id == o.id
        &&& self.channel_id == o.channel_id
        &&& self.author == o.author
        &&& self.message_type == o.message_type
        &&& self.tts == o.tts
        &&& self.content == o.content
        &&& self.timestamp == o.timestamp
        &&& self.edited_timestamp == o.edited_timestamp
        &&& self.pinned == o.pinned
        &&& self.mention_everyone == o.mention_everyone
        &&& self.mentions@ == o.mentions@
        &&& self.mention_roles@ == o.mention_roles@
        &&& self.attachments@ == o.attachments@
        &&& self.channel_type == o.channel_type
        &&& embeds_eqv(self.embeds@, o.embeds@)
        &&& self.reactions@ == o.reactions@
        &&& self.message_reference == o.message_reference
        &&& member_eqv(self.member, o.member)
        &&& match (self.referenced_message, o.referenced_message) {
            (None, None) => true,
            (Some(x), Some(y)) => x.eqv(&*y),
            _ => false,
        }
    }
}

fn clone_embeds(v: &Vec<MessageEmbedResponse>) -> (r: Vec<MessageEmbedResponse>)
    ensures
        embeds_eqv(v@, r@),
{
    let mut out: Vec<MessageEmbedResponse> = Vec::new();
    let mut i: usize = 0;
    while i < v.len()
        invariant
            i <= v.len(),
            out@.len() == i,
            forall|j: int| 0 <= j < i ==> #[trigger] v@[j].eqv(&out@[j]),
        decreases v.len() - i,
    {
        let e = v[i].clone();
        proof {
            assert(v@[i as int].eqv(&e) == e.eqv(&v@[i as int]));
        }
        out.push(e);
        i = i + 1;
    }
    out
}

impl MessageResponse {
    /// A copy of the message record.
    pub fn duplicate(&self) -> (r: Self)
        ensures
            r.eqv(self),
        decreases self,
    {
        let mentions = self.mentions.clone();
        assert(mentions@ =~= self.mentions@);
        let mention_roles = self.mention_roles.clone();
        assert(mention_roles@ =~= self.mention_roles@);
        let attachments = self.attachments.clone();
        assert(attachments@ =~= self.attachments@);
        let reactions = self.reactions.clone();
        assert(reactions@ =~= self.reactions@);
        let embeds = clone_embeds(&self.embeds);
        let referenced_message = match &self.referenced_message {
            Some(b) => Some(Box::new(b.duplicate())),
            None => None,
        };
        let member = match &self.member {
            Some(m) => Some(m.clone()),
            None => None,
        };
        let r = MessageResponse {
            id: self.id.clone(),
            channel_id: self.channel_id.clone(),
            author: self.author.clone(),
            message_type: self.message_type,
            tts: self.tts,
            content: self.content.clone(),
            timestamp: self.timestamp.clone(),
            edited_timestamp: self.edited_timestamp.clone(),
            pinned: self.pinned,
            mention_everyone: self.mention_everyone,
            mentions,
            mention_roles,
            attachments,
            channel_type: self.channel_type,
            embeds,
            reactions,
            message_reference: self.message_reference.clone(),
            referenced_message,
            member,
        };
        proof {
            assert forall|i: int| 0 <= i < r.embeds@.len() implies #[trigger] r.embeds@[i].eqv(
                &self.embeds@[i],
            ) by {
                assert(self.embeds@[i].eqv(&r.embeds@[i]));
            }
        }
        r
    }
}

/// Message records that match a third match each other.
pub proof fn lemma_message_eqv_trans(a: MessageResponse, b: MessageResponse, c: MessageResponse)
    requires
        a.eqv(&b),
        b.eqv(&c),
    ensures
        a.eqv(&c),
    decreases a,
{
    assert forall|i: int| 0 <= i < a.embeds@.len() implies #[trigger] a.embeds@[i].eqv(&c.embeds@[i]) by {
        assert(a.embeds@[i].eqv(&b.embeds@[i]));
        assert(b.embeds@[i].eqv(&c.embeds@[i]));
    }
    match (a.referenced_message, b.referenced_message, c.referenced_message) {
        (Some(x), Some(y), Some(z)) => {
            lemma_message_eqv_trans(*x, *y, *z);
        },
        _ => {},
    }
}

impl Clone for MessageResponse {
    fn clone(&self) -> (r: Self)
        ensures
            r.eqv(self),
    {
        self.duplicate()
    }
}

#[derive(Debug, Default, Clone)]
pub struct UserSettingsResponse {
    pub status: String,
    pub theme: String,
    pub locale: String,
    pub developer_mode: bool,
}

#[derive(Debug, Default)]
pub struct VoiceStateResponse {
    pub guild_id: Option<String>,
    pub channel_id: Option<String>,
    pub user_id: String,
    pub connection_id: String,
    pub session_id: Option<String>,
    pub member: Option<GuildMemberResponse>,
    pub mute: bool,
    pub deaf: bool,
    pub self_mute: bool,
    pub self_deaf: bool,
    pub self_video: bool,
    pub self_stream: bool,
    pub is_mobile: bool,
    pub version: u64,
}

#[derive(Debug, Default)]
pub struct ReadyEvent {
    pub version: u64,
    pub session_id: String,
    pub user: UserPrivateResponse,
    pub guilds: Vec<GuildCreateEvent>,
    pub private_channels: Vec<ChannelResponse>,
    pub users: Vec<UserPartialResponse>,
    pub user_settings: Option<UserSettingsResponse>,
    pub read_state: Vec<ReadStateResponse>,
}

#[derive(Debug, Default)]
pub struct GuildCreateEvent {
    pub guild: GuildResponse,
    pub unavailable: bool,
    pub channels: Vec<ChannelResponse>,
    pub members: Vec<GuildMemberResponse>,
    pub roles: Vec<GuildRoleResponse>,
    pub voice_states: Vec<VoiceStateResponse>,
}

#[derive(Debug, Default)]
pub struct GuildDeleteEvent {
    pub id: String,
    pub unavailable: bool,
}

#[derive(Debug, Default)]
pub struct ChannelBulkUpdateEvent {
    pub channels: Vec<ChannelResponse>,
}

#[derive(Debug, Default)]
pub struct MessageDeleteEvent {
    pub id: String,
    pub channel_id: String,
}

#[derive(Debug, Default)]
pub struct AuthSessionChangeEvent {
    pub new_token: String,
}

#[derive(Debug, Default)]
pub struct CallEvent {
    pub channel_id: String,
    pub message_id: String,
    pub region: Option<String>,
    pub ringing: Vec<String>,
    pub voice_states: Vec<VoiceStateResponse>,
}

#[derive(Debug, Default)]
pub struct CallDeleteEvent {
    pub channel_id: String,
}

#[derive(Debug, Default, Clone)]
pub struct CreateMessageRequest {
    pub content: Option<String>,
    pub nonce: Option<String>,
    pub flags: Option<u32>,
    pub tts: Option<bool>,
    pub message_reference: Option<MessageReferenceRequest>,
}

#[derive(Debug, Default, Clone)]
pub struct MessageQuery {
    pub limit: Option<u32>,
    pub before: Option<String>,
    pub after: Option<String>,
    pub around: Option<String>,
}

#[derive(Debug, Default, Clone)]
pub struct GatewayHelloPayload {
    pub heartbeat_interval: u64,
}

#[derive(Debug, Default, Clone)]
pub struct GatewayIdentifyPayload {
    pub token: String,
    pub properties: GatewayIdentifyProperties,
    pub flags: u32,
    /// The guild the user is viewing, marked active for passive sessions.
    pub initial_guild_id: Option<String>,
}

#[derive(Debug, Default, Clone)]
pub struct GatewayIdentifyProperties {
    pub os: String,
    pub browser: String,
    pub device: String,
}

#[derive(Debug, Default, Clone)]
pub struct GatewayResumePayload {
    pub token: String,
    pub session_id: String,
    pub seq: u64,
}

#[derive(Debug, Default)]
pub struct MessageReactionAddEvent {
    pub user_id: String,
    pub channel_id: String,
    pub message_id: String,
    pub guild_id: Option<String>,
    pub emoji: ReactionEmojiResponse,
}

#[derive(Debug, Default)]
pub struct MessageReactionRemoveEvent {
    pub user_id: String,
    pub channel_id: String,
    pub message_id: String,
    pub guild_id: Option<String>,
    pub emoji: ReactionEmojiResponse,
}

#[derive(Debug, Default)]
pub struct MessageAckEvent {
    pub channel_id: String,
    pub message_id: String,
    pub mention_count: u64,
}

#[derive(Debug, Default)]
pub struct TypingStartEvent {
    pub channel_id: String,
    pub user_id: String,
    pub guild_id: Option<String>,
    pub member: Option<GuildMemberResponse>,
}

#[derive(Debug, Default)]
pub struct UserGuildMuteConfig {
    pub end_time: Option<String>,
    pub selected_time_window: Option<u64>,
}

impl Clone for UserGuildMuteConfig {
    fn clone(&self) -> (r: Self)
        ensures
            r == *self,
    {
        UserGuildMuteConfig {
            end_time: self.end_time.clone(),
            selected_time_window: self.selected_time_window,
        }
    }
}

#[derive(Debug, Default)]
pub struct UserGuildChannelOverride {
    pub muted: bool,
    pub mute_config: Option<UserGuildMuteConfig>,
    pub message_notifications: i32,
    pub collapsed: bool,
}

impl Clone for UserGuildChannelOverride {
    fn clone(&self) -> (r: Self)
        ensures
            r == *self,
    {
        UserGuildChannelOverride {
            muted: self.muted,
            mute_config: self.mute_config.clone(),
            message_notifications: self.message_notifications,
            collapsed: self.collapsed,
        }
    }
}

#[derive(Debug, Default)]
pub struct UserGuildSettingsResponse {
    pub guild_id: Option<String>,
    pub message_notifications: i32,
    pub muted: bool,
    pub mute_config: Option<UserGuildMuteConfig>,
    pub mobile_push: bool,
    pub suppress_everyone: bool,
    pub suppress_roles: bool,
    pub hide_muted_channels: bool,
    pub channel_overrides: StrMap<UserGuildChannelOverride>,
    pub version: u64,
}

impl UserGuildSettingsResponse {
    /// Same settings: equal fields, overrides compared as maps.
    pub open spec fn eqv(&self, o: &Self) -> bool {
        &&& self.guild_id == o.guild_id
        &&& self.message_notifications == o.message_notifications
        &&& self.muted == o.muted
        &&& self.mute_config == o.mute_config
        &&& self.mobile_push == o.mobile_push
        &&& self.suppress_everyone == o.suppress_everyone
        &&& self.suppress_roles == o.suppress_roles
        &&& self.hide_muted_channels == o.hide_muted_channels
        &&& self.channel_overrides@ == o.channel_overrides@
        &&& self.version == o.version
    }
}

impl Clone for UserGuildSettingsResponse {
    fn clone(&self) -> (r: Self)
        ensures
            r.eqv(self),
    {
        UserGuildSettingsResponse {
            guild_id: self.guild_id.clone(),
            message_notifications: self.message_notifications,
            muted: self.muted,
            mute_config: self.mute_config.clone(),
            mobile_push: self.mobile_push,
            suppress_everyone: self.suppress_everyone,
            suppress_roles: self.suppress_roles,
            hide_muted_channels: self.hide_muted_channels,
            channel_overrides: {
                let c = self.channel_overrides.clone();
                assert forall|i: int| 0 <= i < self.channel_overrides.pairs().len() implies #[trigger] c.pairs()[i].1 == self.channel_overrides.pairs()[i].1 by {
                    assert(c.pairs()[i].0 == self.channel_overrides.pairs()[i].0);
                    assert(cloned(self.channel_overrides.pairs()[i].1, c.pairs()[i].1));
                }
                c
            },
            version: self.version,
        }
    }
}

/// A partial update of a guild's notification settings; `None` leaves a field as it is.
#[derive(Debug, Default)]
pub struct UserGuildSettingsPatch {
    pub message_notifications: Option<i32>,
    pub muted: Option<bool>,
    pub mute_config: Option<Option<UserGuildMuteConfig>>,
    pub mobile_push: Option<bool>,
    pub suppress_everyone: Option<bool>,
    pub suppress_roles: Option<bool>,
    pub hide_muted_channels: Option<bool>,
}

impl Clone for UserGuildSettingsPatch {
    fn clone(&self) -> (r: Self)
        ensures
            r == *self,
    {
        UserGuildSettingsPatch {
            message_notifications: self.message_notifications,
            muted: self.muted,
            mute_config: match &self.mute_config {
                Some(c) => Some(c.clone()),
                None => None,
            },
            mobile_push: self.mobile_push,
            suppress_everyone: self.suppress_everyone,
            suppress_roles: self.suppress_roles,
            hide_muted_channels: self.hide_muted_channels,
        }
    }
}

/// The number that orders snowflake ids: the decimal value, or 0 when the
/// text is not a number that fits.
pub open spec fn sort_key(s: Seq<char>) -> nat {
    match parse_unsigned(s, u128::MAX as nat) {
        Some(v) => v,
        None => 0,
    }
}

/// The ordering key of a snowflake id: its decimal value, 0 when it does not parse.
pub fn snowflake_sort_key(value: &str) -> (r: u128)
    ensures
        r as nat == sort_key(value@),
{
    match parse_u128(value) {
        Some(v) => v,
        None => 0,
    }
}

/// The user cache after recording `users` in order; users with an empty id are skipped.
pub open spec fn merged_users(
    m: Map<Seq<char>, UserPartialResponse>,
    users: Seq<UserPartialResponse>,
) -> Map<Seq<char>, UserPartialResponse>
    decreases users.len(),
{
    if users.len() == 0 {
        m
    } else {
        let prev = merged_users(m, users.drop_last());
        let u = users.last();
        if u.id@.len() == 0 {
            prev
        } else {
            prev.insert(u.id@, u)
        }
    }
}

/// Records each user with a nonempty id in the cache, later entries winning.
pub fn merge_user_cache(cache: &mut StrMap<UserPartialResponse>, users: Vec<UserPartialResponse>)
    ensures
        final(cache)@ == merged_users(old(cache)@, users@),
{
    let mut i: usize = 0;
    while i < users.len()
        invariant
            i <= users.len(),
            cache@ == merged_users(old(cache)@, users@.take(i as int)),
        decreases users.len() - i,
    {
        let u = users[i].clone();
        assert(users@.take(i + 1).drop_last() =~= users@.take(i as int));
        if !u.id.as_str().is_empty() {
            let k = u.id.clone();
            cache.insert(k, u);
        }
        i = i + 1;
    }
    assert(users@.take(users.len() as int) =~= users@);
}

} // verus!
