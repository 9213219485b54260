use metanear_chat::{
    app_key, messages_key_from_hash, verify_app_id, verify_channel_id, Channel, ChatError,
    GetRequest, GetResponse, IncomingMessage, MetanearChat,
};

fn s(x: &str) -> String {
    x.to_string()
}

fn chat_post(store: &mut MetanearChat, channel: &str, text: &str, sender: &str, time: u64) {
    let msg = IncomingMessage::ChatMessage { channel_id: s(channel), text: s(text) };
    assert_eq!(store.post_message_from(s("chat"), msg, s(sender), time), Ok(()));
}

fn page(store: &MetanearChat, channel: &str, from_index: u64, limit: u64) -> Vec<(String, String, u64)> {
    let req = GetRequest::ChannelMessages { channel_id: s(channel), from_index, limit };
    match store.chat_get(req) {
        Ok(GetResponse::ChannelMessages(resp)) => resp
            .messages
            .iter()
            .map(|m| (m.sender_id.clone(), m.text.clone(), m.time))
            .collect(),
        other => panic!("unexpected answer {:?}", other),
    }
}

#[test]
fn set_then_get_then_remove() {
    let mut store = MetanearChat::new();
    let me = s("store.near");
    assert_eq!(store.master_set_from(&me, &me, s("notes"), s("k1"), s("v1")), Ok(()));
    assert_eq!(store.get(s("notes"), s("k1")), Ok(Some(s("v1"))));
    assert_eq!(store.get(s("notes"), s("k2")), Ok(None));
    assert_eq!(store.get(s("other"), s("k1")), Ok(None));
    assert_eq!(store.master_set_from(&me, &me, s("notes"), s("k1"), s("v2")), Ok(()));
    assert_eq!(store.get(s("notes"), s("k1")), Ok(Some(s("v2"))));
    assert_eq!(store.master_remove_from(&me, &me, s("notes"), s("k1")), Ok(()));
    assert_eq!(store.get(s("notes"), s("k1")), Ok(None));
    assert_eq!(store.master_remove_from(&me, &me, s("notes"), s("k1")), Ok(()));
}

#[test]
fn non_self_caller_is_rejected() {
    let mut store = MetanearChat::new();
    let me = s("store.near");
    let eve = s("eve.near");
    assert_eq!(store.master_set_from(&me, &me, s("notes"), s("k"), s("v")), Ok(()));
    assert_eq!(
        store.master_set_from(&eve, &me, s("notes"), s("k"), s("bad")),
        Err(ChatError::NotSelfCall)
    );
    assert_eq!(
        store.master_remove_from(&eve, &me, s("notes"), s("k")),
        Err(ChatError::NotSelfCall)
    );
    assert_eq!(store.get(s("notes"), s("k")), Ok(Some(s("v"))));
}

#[test]
fn host_caller_is_not_self() {
    // The default mocked host calls as bob.near into alice.near.
    let mut store = MetanearChat::new();
    assert_eq!(store.master_set(s("notes"), s("k"), s("v")), Err(ChatError::NotSelfCall));
    assert_eq!(store.master_remove(s("notes"), s("k")), Err(ChatError::NotSelfCall));
    assert_eq!(store.get(s("notes"), s("k")), Ok(None));
}

#[test]
fn get_checks_tenant() {
    let store = MetanearChat::new();
    assert_eq!(store.get(s(""), s("k")), Err(ChatError::InvalidAppId));
    assert_eq!(store.get(s("A"), s("k")), Err(ChatError::InvalidAppId));
    assert_eq!(store.get(s("chat"), s("k")), Err(ChatError::ReservedApp));
}

#[test]
fn identifier_policy() {
    assert_eq!(verify_app_id(&s("")), Err(ChatError::InvalidAppId));
    assert_eq!(verify_app_id(&s("A")), Err(ChatError::InvalidAppId));
    assert_eq!(verify_app_id(&s("a")), Err(ChatError::InvalidAppId));
    assert_eq!(verify_app_id(&"a".repeat(65)), Err(ChatError::InvalidAppId));
    assert_eq!(verify_app_id(&"a".repeat(64)), Ok(()));
    assert_eq!(verify_app_id(&s("ab")), Ok(()));
    assert_eq!(verify_app_id(&s("valid-id_1.2")), Ok(()));
    assert_eq!(verify_app_id(&s("no space")), Err(ChatError::InvalidAppId));
    assert_eq!(verify_app_id(&s("caf\u{e9}")), Err(ChatError::InvalidAppId));
    assert_eq!(verify_channel_id(&s("")), Err(ChatError::InvalidChannelId));
    assert_eq!(verify_channel_id(&s("g")), Ok(()));
    assert_eq!(verify_channel_id(&"c".repeat(128)), Ok(()));
    assert_eq!(verify_channel_id(&"c".repeat(129)), Err(ChatError::InvalidChannelId));
    assert_eq!(verify_channel_id(&s("General")), Err(ChatError::InvalidChannelId));
}

#[test]
fn addresses_are_tagged_digests() {
    let abc_digest: [u8; 32] = [
        0xba, 0x78, 0x16, 0xbf, 0x8f, 0x01, 0xcf, 0xea, 0x41, 0x41, 0x40, 0xde, 0x5d, 0xae, 0x22,
        0x23, 0xb0, 0x03, 0x61, 0xa3, 0x96, 0x17, 0x7a, 0x9c, 0xb4, 0x10, 0xff, 0x61, 0xf2, 0x00,
        0x15, 0xad,
    ];
    let k = app_key(&s("abc"), &s("abc"));
    assert_eq!(k.len(), 65);
    assert_eq!(k[0], b'a');
    assert_eq!(&k[1..33], &abc_digest[..]);
    assert_eq!(&k[33..65], &abc_digest[..]);
    let m = messages_key_from_hash(abc_digest.to_vec());
    assert_eq!(m.len(), 33);
    assert_eq!(m[0], b'm');
    assert_eq!(&m[1..], &abc_digest[..]);
}

#[test]
fn addresses_do_not_collide() {
    assert_ne!(app_key(&s("ab"), &s("c")), app_key(&s("a"), &s("bc")));
    let names = ["a", "b", "ab", "ba", "abc", "chat", "notes", "x.y", "x-y", "x_y", ""];
    let mut seen: Vec<Vec<u8>> = Vec::new();
    for t in names.iter() {
        for k in names.iter() {
            let a = app_key(&s(t), &s(k));
            assert!(!seen.contains(&a));
            seen.push(a);
        }
    }
}

#[test]
fn paging_reads_back_in_order() {
    let mut store = MetanearChat::new();
    for i in 0..5u64 {
        chat_post(&mut store, "general", &format!("m{}", i), "bob", i);
    }
    let all = page(&store, "general", 0, 5);
    assert_eq!(all.len(), 5);
    for (i, m) in all.iter().enumerate() {
        assert_eq!(m.1, format!("m{}", i));
        assert_eq!(m.2, i as u64);
    }
    let mid = page(&store, "general", 3, 10);
    assert_eq!(mid.len(), 2);
    assert_eq!(mid[0].1, "m3");
    assert_eq!(mid[1].1, "m4");
    let two = page(&store, "general", 1, 2);
    assert_eq!(two.len(), 2);
    assert_eq!(two[0].1, "m1");
    assert!(page(&store, "general", 5, 3).is_empty());
    assert!(page(&store, "general", 100, 3).is_empty());
    assert!(page(&store, "general", 0, 0).is_empty());
    assert!(page(&store, "empty", 0, 10).is_empty());
}

#[test]
fn total_is_sum_over_channels() {
    let mut store = MetanearChat::new();
    chat_post(&mut store, "a", "1", "bob", 0);
    chat_post(&mut store, "b", "2", "bob", 0);
    chat_post(&mut store, "a", "3", "carol", 0);
    chat_post(&mut store, "c", "4", "carol", 0);
    chat_post(&mut store, "a", "5", "bob", 0);
    let mut sum = 0u64;
    for c in ["a", "b", "c", "d"].iter() {
        match store.chat_get(GetRequest::ChannelStatus { channel_id: s(c) }) {
            Ok(GetResponse::ChannelStatus(r)) => sum += r.num_messages,
            other => panic!("unexpected answer {:?}", other),
        }
    }
    assert_eq!(sum, 5);
    match store.chat_get(GetRequest::Status {}) {
        Ok(GetResponse::Status(r)) => {
            assert_eq!(r.num_channels, 3);
            assert_eq!(r.total_num_messages, 5);
        }
        other => panic!("unexpected answer {:?}", other),
    }
    assert_eq!(store.total_num_messages(), 5);
    assert_eq!(store.num_channels(), 3);
}

#[test]
fn chat_scenario() {
    let mut store = MetanearChat::new();
    chat_post(&mut store, "general", "hi", "bob", 7);
    let msgs = page(&store, "general", 0, 10);
    assert_eq!(msgs.len(), 1);
    assert_eq!(msgs[0].0, "bob");
    assert_eq!(msgs[0].1, "hi");
    match store.chat_get(GetRequest::Status {}) {
        Ok(GetResponse::Status(r)) => {
            assert_eq!(r.num_channels, 1);
            assert_eq!(r.total_num_messages, 1);
        }
        other => panic!("unexpected answer {:?}", other),
    }
}

#[test]
fn post_errors_leave_store_unchanged() {
    let mut store = MetanearChat::new();
    let msg = |c: &str| IncomingMessage::ChatMessage { channel_id: s(c), text: s("t") };
    assert_eq!(store.post_message_from(s("A"), msg("g"), s("bob"), 0), Err(ChatError::InvalidAppId));
    assert_eq!(
        store.post_message_from(s("notes"), msg("g"), s("bob"), 0),
        Err(ChatError::UnsupportedApp)
    );
    assert_eq!(
        store.post_message_from(s("chat"), msg("Bad!"), s("bob"), 0),
        Err(ChatError::InvalidChannelId)
    );
    assert_eq!(store.total_num_messages(), 0);
    assert_eq!(store.num_channels(), 0);
    assert!(matches!(
        store.chat_get(GetRequest::ChannelStatus { channel_id: s("") }),
        Err(ChatError::InvalidChannelId)
    ));
    assert!(matches!(
        store.chat_get(GetRequest::ChannelMessages { channel_id: s("X"), from_index: 0, limit: 1 }),
        Err(ChatError::InvalidChannelId)
    ));
}

#[test]
fn post_message_uses_host_caller_and_clock() {
    let mut store = MetanearChat::new();
    let msg = IncomingMessage::ChatMessage { channel_id: s("general"), text: s("hello") };
    assert_eq!(store.post_message(s("chat"), msg), Ok(()));
    let msgs = page(&store, "general", 0, 10);
    assert_eq!(msgs.len(), 1);
    assert_eq!(msgs[0].0, "bob.near");
    assert_eq!(msgs[0].1, "hello");
    assert_eq!(msgs[0].2, 0);
}

#[test]
fn channel_lifecycle() {
    let mut store = MetanearChat::new();
    let mut c = store.get_channel(s("room")).unwrap();
    assert_eq!(c.channel_id(), "room");
    assert_eq!(c.num_messages(), 0);
    c.add_message_at(s("bob"), s("one"), 3);
    c.add_message(s("carol"), s("two"));
    assert_eq!(c.num_messages(), 2);
    assert_eq!(c.message(0).unwrap().text, "one");
    assert_eq!(c.message(1).unwrap().sender_id, "carol");
    assert!(c.message(2).is_none());
    // Not saved yet: a fresh load is still empty.
    assert_eq!(store.get_channel(s("room")).unwrap().num_messages(), 0);
    store.save_channel(c);
    let again = store.get_channel(s("room")).unwrap();
    assert_eq!(again.num_messages(), 2);
    assert_eq!(again.messages_slice(1, 5)[0].text, "two");
    assert_eq!(store.num_channels(), 1);
    let fresh = Channel::new(s("other"));
    assert_eq!(fresh.num_messages(), 0);
    assert!(matches!(store.get_channel(s("")), Err(ChatError::InvalidChannelId)));
}
