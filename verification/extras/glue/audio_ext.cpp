// The C++ side of the extension: the interfaces of SourceMod and of the game.
// It loads the game data and the detour, and leaves playing and mixing to the
// Rust side.
#include "smsdk_ext.h"
#include <CDetour/detours.h>
#include <extensions/ISDKTools.h>

#include <iserver.h>
#include <iclient.h>
#include <protobuf/netmessages.pb.h>

class IVoiceCodec
{
protected:
    virtual ~IVoiceCodec() {}

public:
    virtual bool Init(int quality) = 0;
    virtual void Release() = 0;
    // Samples are 16-bit signed mono. Returns the number of bytes written.
    virtual int Compress(const char *uncompressed, int samples, char *compressed, int maxBytes, bool final) = 0;
    // Returns the number of samples written.
    virtual int Decompress(const char *compressed, int bytes, char *uncompressed, int maxBytes) = 0;
    virtual bool ResetState() = 0;
};

// Offered by the Rust side.
extern "C" {
    bool audio_ext_load(char *error, size_t maxlen);
    void audio_ext_unload();
    void audio_ext_game_frame();
    void audio_ext_voice(size_t slot, const char *data, size_t size);
    bool audio_ext_overrides_hearing(int ownSlot, int slot);
    bool audio_mixer_get_hear_self(int client);
    void audio_mixer_set_hear_self(int client, bool canHear);
    void *audio_player_new();
    void audio_player_free(void *player);
    float audio_player_secs(const void *player);
    bool audio_player_finished(const void *player);
    int audio_player_client_index(const void *player);
    void audio_player_set_from(void *player, float secs);
    void audio_player_add_input_arg(void *player, const char *arg);
    void audio_player_add_arg(void *player, const char *arg);
    void audio_player_play(void *player, const char *uri, int slot);
}

ISDKTools *sdktools = nullptr;
IServer *iserver = nullptr;

SH_DECL_MANUALHOOK1(CGameClient__IsHearingClient, 0, 0, 0, bool, int);

#if defined(WIN32)
void (__cdecl *SV_BroadcastVoiceData_Actual)(bool) = nullptr;
#else
void (*SV_BroadcastVoiceData_Actual)(IClient *, const CCLCMsg_VoiceData *, bool) = nullptr;
#endif

static inline void SV_BroadcastVoiceData(IClient *iclient, const CCLCMsg_VoiceData *msg, bool drop)
{
#if defined(WIN32)
    __asm {
        mov ecx, iclient;
        mov edx, msg;
    }
    SV_BroadcastVoiceData_Actual(drop);
#else
    SV_BroadcastVoiceData_Actual(iclient, msg, drop);
#endif
}

bool Hook_IsHearingClient(int slot)
{
    IClient *iclient = META_IFACEPTR(IClient);
    if (audio_ext_overrides_hearing(iclient->GetPlayerSlot(), slot)) {
        RETURN_META_VALUE(MRES_SUPERCEDE, true);
    }
    RETURN_META_VALUE(MRES_IGNORED, false);
}

static void SV_BroadcastVoiceData_AllowHearSelf(IClient *iclient, const CCLCMsg_VoiceData *msg, bool drop)
{
    SH_ADD_MANUALHOOK(CGameClient__IsHearingClient, iclient, SH_STATIC(Hook_IsHearingClient), false);
    SV_BroadcastVoiceData(iclient, msg, drop);
    SH_REMOVE_MANUALHOOK(CGameClient__IsHearingClient, iclient, SH_STATIC(Hook_IsHearingClient), false);
}

// Voice of a client goes to the mixer of its slot instead of the server.
#if defined(WIN32)
void __cdecl SV_BroadcastVoiceData_Callback(bool drop)
#else
void SV_BroadcastVoiceData_Callback(IClient *iclient, const CCLCMsg_VoiceData *msg, bool drop)
#endif
{
#if defined(WIN32)
    IClient *iclient;
    const CCLCMsg_VoiceData *msg;
    __asm {
        mov iclient, ecx;
        mov msg, edx;
    }
#endif
    audio_ext_voice((size_t)iclient->GetPlayerSlot(), msg->data().data(), msg->data().size());
}

// Offered to the Rust side.
extern "C" {
    const char *audio_host_sm_path()
    {
        return smutils->GetSourceModPath();
    }

    void audio_host_log_error(const char *message)
    {
        smutils->LogError(myself, "%s", message);
    }

    bool audio_host_client_present(int slot)
    {
        return iserver->GetClient(slot) != nullptr;
    }

    void audio_host_broadcast(int slot, const char *data, size_t size, bool hearself)
    {
        IClient *iclient = iserver->GetClient(slot);
        CCLCMsg_VoiceData msg;
        msg.set_data(data, size);
        if (hearself) {
            SV_BroadcastVoiceData_AllowHearSelf(iclient, &msg, false);
        } else {
            SV_BroadcastVoiceData(iclient, &msg, false);
        }
    }

    void *audio_host_extension_interface()
    {
        return static_cast<void *>(g_pExtensionIface);
    }

    const char *audio_host_plugin_interface_name()
    {
#if defined SMEXT_CONF_METAMOD
    #if defined METAMOD_PLAPI_VERSION
        return METAMOD_PLAPI_NAME;
    #else
        return PLAPI_NAME;
    #endif
#else
        return nullptr;
#endif
    }

    int audio_host_interface_code(bool found)
    {
#if defined SMEXT_CONF_METAMOD
        return found ? META_IFACE_OK : META_IFACE_FAILED;
#else
        return 0;
#endif
    }

    bool audio_codec_init(void *codec, int quality)
    {
        return static_cast<IVoiceCodec *>(codec)->Init(quality);
    }

    size_t audio_codec_compress(void *codec, const char *uncomp, int samples, char *comp, int compLen, bool fin)
    {
        return (size_t)static_cast<IVoiceCodec *>(codec)->Compress(uncomp, samples, comp, compLen, fin);
    }

    size_t audio_codec_decompress(void *codec, const char *comp, int compLen, char *uncomp, int uncompLen)
    {
        return (size_t)static_cast<IVoiceCodec *>(codec)->Decompress(comp, compLen, uncomp, uncompLen);
    }

    void audio_codec_release(void *codec)
    {
        static_cast<IVoiceCodec *>(codec)->Release();
    }
}

class AudioPlayerTypeHandler : public IHandleTypeDispatch
{
public:
    void OnHandleDestroy(HandleType_t type, void *object)
    {
        audio_player_free(object);
    }
};

HandleType_t g_AudioPlayerType = 0;
AudioPlayerTypeHandler g_AudioPlayerTypeHandler;

IGameConfig *g_pGameConf = nullptr;
CDetour *g_pDetourSVBroadcastVoiceData = nullptr;
int g_iIsHearingClientOffset = 0;

extern sp_nativeinfo_t g_Natives[];

static void OnGameFrame(bool simulating)
{
    audio_ext_game_frame();
}

class Ext : public SDKExtension
{
public:
    virtual bool SDK_OnLoad(char *error, size_t maxlen, bool late)
    {
        if (!audio_ext_load(error, maxlen)) {
            return false;
        }

        sharesys->AddDependency(myself, "sdktools.ext", true, true);
        char conf_err[256];
        if (!gameconfs->LoadGameConfigFile("audio.ext.games", &g_pGameConf, conf_err, sizeof(conf_err))) {
            smutils->Format(error, maxlen, "Cannot open audio.ext.games gamedata: %s", conf_err);
            SDK_OnUnload();
            return false;
        }

        if (!g_pGameConf->GetOffset("CGameClient::IsHearingClient", &g_iIsHearingClientOffset)) {
            smutils->Format(error, maxlen, "Offset of CGameClient::IsHearingClient not found");
            SDK_OnUnload();
            return false;
        }
        SH_MANUALHOOK_RECONFIGURE(CGameClient__IsHearingClient, g_iIsHearingClientOffset, 0, 0);

        CDetourManager::Init(smutils->GetScriptingEngine(), g_pGameConf);
        g_pDetourSVBroadcastVoiceData = CDetourManager::CreateDetour((void *)&SV_BroadcastVoiceData_Callback, (void **)&SV_BroadcastVoiceData_Actual, "SV_BroadcastVoiceData");
        if (g_pDetourSVBroadcastVoiceData == nullptr) {
            smutils->Format(error, maxlen, "Could not create detour for SV_BroadcastVoiceData");
            SDK_OnUnload();
            return false;
        }
        g_pDetourSVBroadcastVoiceData->EnableDetour();

        g_AudioPlayerType = handlesys->CreateType("AudioPlayer", &g_AudioPlayerTypeHandler, 0, NULL, NULL, myself->GetIdentity(), NULL);
        sharesys->AddNatives(myself, g_Natives);
        sharesys->RegisterLibrary(myself, "Audio");

        smutils->AddGameFrameHook(OnGameFrame);
        return true;
    }

    virtual void SDK_OnUnload()
    {
        smutils->RemoveGameFrameHook(OnGameFrame);

        if (g_pDetourSVBroadcastVoiceData) {
            g_pDetourSVBroadcastVoiceData->Destroy();
            g_pDetourSVBroadcastVoiceData = nullptr;
        }

        if (g_pGameConf != nullptr) {
            gameconfs->CloseGameConfigFile(g_pGameConf);
            g_pGameConf = nullptr;
        }

        // Frees the players that are left.
        if (g_AudioPlayerType) {
            handlesys->RemoveType(g_AudioPlayerType, myself->GetIdentity());
            g_AudioPlayerType = 0;
        }

        audio_ext_unload();
    }

    void SDK_OnAllLoaded()
    {
        SM_GET_LATE_IFACE(SDKTOOLS, sdktools);
        if (sdktools == nullptr) {
            smutils->LogError(myself, "Cannot get sdktools instance.");
            return;
        }
        iserver = sdktools->GetIServer();
    }
};

Ext g_Ext;
SMEXT_LINK(&g_Ext);

static cell_t Native_AudioMixer_GetClientCanHearSelf(IPluginContext *pContext, const cell_t *params)
{
    return audio_mixer_get_hear_self(params[1]) ? 1 : 0;
}

static cell_t Native_AudioMixer_SetClientCanHearSelf(IPluginContext *pContext, const cell_t *params)
{
    audio_mixer_set_hear_self(params[1], params[2] ? true : false);
    return 0;
}

static cell_t Native_CreateAudioPlayer(IPluginContext *pContext, const cell_t *params)
{
    void *player = audio_player_new();

    HandleError he = HandleError_None;
    Handle_t handle = handlesys->CreateHandle(g_AudioPlayerType, player, pContext->GetIdentity(), myself->GetIdentity(), &he);
    if (he != HandleError_None) {
        audio_player_free(player);
        return pContext->ThrowNativeError("Failed to create AudioPlayer handle: error #%d", he);
    }
    return handle;
}

// Finds the player of a handle, or throws and returns null.
static void *ReadPlayer(IPluginContext *pContext, cell_t param)
{
    Handle_t hndl = static_cast<Handle_t>(param);
    HandleSecurity sec = HandleSecurity(NULL, myself->GetIdentity());

    void *player;
    HandleError err = handlesys->ReadHandle(hndl, g_AudioPlayerType, &sec, &player);
    if (err != HandleError_None) {
        pContext->ThrowNativeError("Invalid AudioPlayer handle %x (error %d)", hndl, err);
        return nullptr;
    }
    return player;
}

static cell_t Native_AudioPlayer_GetPlayedSecs(IPluginContext *pContext, const cell_t *params)
{
    void *player = ReadPlayer(pContext, params[1]);
    return player ? sp_ftoc(audio_player_secs(player)) : 0;
}

static cell_t Native_AudioPlayer_GetFinished(IPluginContext *pContext, const cell_t *params)
{
    void *player = ReadPlayer(pContext, params[1]);
    return player && audio_player_finished(player) ? 1 : 0;
}

static cell_t Native_AudioPlayer_GetClientIndex(IPluginContext *pContext, const cell_t *params)
{
    void *player = ReadPlayer(pContext, params[1]);
    return player ? audio_player_client_index(player) : 0;
}

static cell_t Native_AudioPlayer_SetFrom(IPluginContext *pContext, const cell_t *params)
{
    if (void *player = ReadPlayer(pContext, params[1])) {
        audio_player_set_from(player, sp_ctof(params[2]));
    }
    return 0;
}

static cell_t Native_AudioPlayer_AddInputArg(IPluginContext *pContext, const cell_t *params)
{
    if (void *player = ReadPlayer(pContext, params[1])) {
        char *arg;
        pContext->LocalToString(params[2], &arg);
        audio_player_add_input_arg(player, arg);
    }
    return 0;
}

static cell_t Native_AudioPlayer_AddArg(IPluginContext *pContext, const cell_t *params)
{
    if (void *player = ReadPlayer(pContext, params[1])) {
        char *arg;
        pContext->LocalToString(params[2], &arg);
        audio_player_add_arg(player, arg);
    }
    return 0;
}

static cell_t Native_AudioPlayer_PlayAsClient(IPluginContext *pContext, const cell_t *params)
{
    if (void *player = ReadPlayer(pContext, params[1])) {
        char *uri;
        pContext->LocalToString(params[3], &uri);
        audio_player_play(player, uri, params[2] - 1);
    }
    return 0;
}

sp_nativeinfo_t g_Natives[] = {
    { "AudioMixer_GetClientCanHearSelf", Native_AudioMixer_GetClientCanHearSelf },
    { "AudioMixer_SetClientCanHearSelf", Native_AudioMixer_SetClientCanHearSelf },
    { "AudioPlayer.AudioPlayer", Native_CreateAudioPlayer },
    { "AudioPlayer.PlayedSecs.get", Native_AudioPlayer_GetPlayedSecs },
    { "AudioPlayer.IsFinished.get", Native_AudioPlayer_GetFinished },
    { "AudioPlayer.ClientIndex.get", Native_AudioPlayer_GetClientIndex },
    { "AudioPlayer.SetFrom", Native_AudioPlayer_SetFrom },
    { "AudioPlayer.AddInputArg", Native_AudioPlayer_AddInputArg },
    { "AudioPlayer.AddArg", Native_AudioPlayer_AddArg },
    { "AudioPlayer.PlayAsClient", Native_AudioPlayer_PlayAsClient },
    { nullptr, nullptr },
};
