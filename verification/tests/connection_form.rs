use roam_ui::connection_form::{
    ConnectionForm, Control, Field, FieldKind, FieldSection, Service, field_section, required_mark,
    service_description, service_presentation,
};
use roam_ui::entry::Icon;
use roam_ui::text_map::TextMap;

fn field(key: &'static str, label: &'static str, kind: FieldKind) -> Field {
    Field {
        key,
        label,
        hint: "",
        required: false,
        secret: matches!(kind, FieldKind::Secret),
        kind,
        default_value: "",
    }
}

fn text(key: &'static str) -> Field {
    field(key, key, FieldKind::Text)
}

fn fs() -> Service {
    Service {
        scheme: "fs",
        label: "本机磁盘目录",
        fields: vec![Field {
            required: true,
            hint: "/path",
            ..field("root", "目录", FieldKind::Path)
        }],
    }
}

fn s3() -> Service {
    Service {
        scheme: "s3",
        label: "S3 对象存储",
        fields: vec![
            text("bucket"),
            text("endpoint"),
            Field {
                default_value: "auto",
                ..text("region")
            },
            text("access_key_id"),
            field("secret_access_key", "Secret", FieldKind::Secret),
            Field {
                hint: "路径风格",
                default_value: "false",
                ..field(
                    "enable_virtual_host_style",
                    "虚拟主机",
                    FieldKind::Toggle {
                        on: "true",
                        off: "false",
                    },
                )
            },
        ],
    }
}

fn gcs() -> Service {
    Service {
        scheme: "gcs",
        label: "Google Cloud Storage",
        fields: vec![
            text("bucket"),
            text("endpoint"),
            field("token", "访问令牌", FieldKind::Secret),
        ],
    }
}

fn nfs() -> Service {
    Service {
        scheme: "nfs",
        label: "NFS 共享",
        fields: vec![
            text("server"),
            text("uid"),
            text("gid"),
            Field {
                hint: "端口",
                ..text("nfs_port")
            },
            text("mount_port"),
        ],
    }
}

fn set_field(form: &mut ConnectionForm, key: &str, value: &str) {
    let ix = form
        .fields()
        .iter()
        .position(|input| input.field.key == key)
        .unwrap_or_else(|| panic!("no field {key} for scheme {}", form.scheme()));
    form.set_text(ix, value);
}

#[test]
fn every_field_kind_has_a_control() {
    for service in [fs(), s3(), gcs(), nfs()] {
        let form = ConnectionForm::new(&service);
        for (ix, field) in service.fields.iter().enumerate() {
            let control = form.control(ix);
            match field.kind {
                FieldKind::Text | FieldKind::Secret | FieldKind::Path => {
                    assert!(matches!(control, Control::Input { .. }), "{}", field.key);
                }
                FieldKind::Toggle { on, off } => {
                    assert!(!on.is_empty() && !off.is_empty(), "{}", field.key);
                    assert!(matches!(control, Control::Switch { .. }), "{}", field.key);
                }
            }
        }
    }
}

#[test]
fn a_new_form_holds_the_defaults() {
    let form = ConnectionForm::new(&s3());
    assert_eq!(form.scheme(), "s3");
    assert_eq!(form.label(), "S3 对象存储");
    assert_eq!(form.name(), "");
    let values = form.values();
    assert_eq!(values.len(), 6);
    assert_eq!(values.get("region"), Some("auto"));
    assert_eq!(values.get("enable_virtual_host_style"), Some("false"));
    let secret = &form.fields()[4];
    assert!(secret.masked);
    assert!(secret.placeholder.is_none());
    assert!(!form.fields()[0].masked);
}

#[test]
fn hints_become_placeholders() {
    let form = ConnectionForm::new(&nfs());
    let hints: Vec<Option<&str>> = form.fields().iter().map(|f| f.placeholder).collect();
    assert_eq!(
        hints,
        [
            None,
            Some("默认 65534"),
            Some("默认 65534"),
            Some("自动发现"),
            Some("自动发现")
        ]
    );
    assert_eq!(
        ConnectionForm::new(&fs()).fields()[0].placeholder,
        Some("/path")
    );
}

#[test]
fn switching_service_keeps_the_fields_both_share() {
    let mut form = ConnectionForm::new(&fs());
    form.select_service(Some(&s3()));
    set_field(&mut form, "bucket", "shared");
    set_field(&mut form, "endpoint", " http://127.0.0.1:9000 ");
    set_field(&mut form, "access_key_id", "k");
    set_field(&mut form, "secret_access_key", "s");

    form.set_name("GCS");
    form.select_service(Some(&gcs()));
    assert_eq!(form.scheme(), "gcs");
    set_field(&mut form, "token", "t");

    let draft = form.build("gcs").unwrap();
    assert_eq!(draft.scheme, "gcs");
    assert_eq!(draft.name, "GCS");
    assert_eq!(draft.values.get("bucket"), Some("shared"));
    assert_eq!(draft.values.get("endpoint"), Some("http://127.0.0.1:9000"));
    assert_eq!(draft.values.get("token"), Some("t"));
    // And the S3-only key did not follow it over.
    assert!(draft.values.get("secret_access_key").is_none());
}

#[test]
fn choosing_the_chosen_or_an_unknown_service_changes_nothing() {
    let mut form = ConnectionForm::new(&s3());
    set_field(&mut form, "bucket", "  typed  ");
    form.select_service(Some(&s3()));
    assert_eq!(form.fields()[0].text.as_deref(), Some("  typed  "));
    form.select_service(None);
    assert_eq!(form.scheme(), "s3");
}

#[test]
fn editing_shows_the_stored_values_including_the_credential() {
    let mut stored = TextMap::new();
    stored.insert("bucket", "bucket".to_string());
    stored.insert("region", "us-east-1".to_string());
    stored.insert("access_key_id", "AKIA".to_string());
    stored.insert("secret_access_key", "shhh".to_string());
    stored.insert("enable_virtual_host_style", "true".to_string());

    let form = ConnectionForm::editing("p", "MinIO", Some(&s3()), &stored).unwrap();
    assert_eq!(form.scheme(), "s3");
    let draft = form.build("other").unwrap();
    assert_eq!(draft.id, "p");
    assert_eq!(draft.name, "MinIO");
    assert_eq!(draft.values.get("secret_access_key"), Some("shhh"));
    assert_eq!(draft.values.get("region"), Some("us-east-1"));
    assert_eq!(draft.values.get("enable_virtual_host_style"), Some("true"));
    assert_eq!(draft.values.get("endpoint"), Some(""));
}

#[test]
fn a_connection_of_an_unknown_service_cannot_be_edited() {
    assert!(ConnectionForm::editing("old", "旧", None, &TextMap::new()).is_none());
    let sftp = Service {
        scheme: "sftp",
        label: "SFTP",
        fields: Vec::new(),
    };
    assert!(ConnectionForm::editing("old", "旧", Some(&sftp), &TextMap::new()).is_none());
}

#[test]
fn a_connection_needs_a_name() {
    let mut form = ConnectionForm::new(&fs());
    form.set_name("  ");
    assert_eq!(form.build("id").unwrap_err(), "请填写连接名称");
    form.set_name(" 远端 ");
    let draft = form.build("yuanduan").unwrap();
    assert_eq!(draft.name, "远端");
    assert_eq!(draft.id, "yuanduan");
}

#[test]
fn toggles_hold_one_of_two_values() {
    let mut form = ConnectionForm::new(&s3());
    form.set_text(5, "typed");
    assert_eq!(form.fields()[5].value(), "false");
    form.set_toggle(5, true);
    assert_eq!(form.fields()[5].value(), "true");
    form.set_toggle(99, true);
    form.set_text(99, "x");
    match form.control(5) {
        Control::Switch {
            id,
            label,
            hint,
            on,
        } => {
            assert_eq!(
                (id.as_str(), label, hint, on),
                ("tg-5", "虚拟主机", "路径风格", true)
            );
        }
        other => panic!("{other:?}"),
    }
}

#[test]
fn services_are_shown_in_the_forms_words() {
    let form = ConnectionForm::new(&s3());
    let other = Service {
        scheme: "ftp",
        label: "FTP",
        fields: Vec::new(),
    };
    let cards = form.cards(&vec![fs(), s3(), other]);
    assert_eq!(cards.len(), 3);
    assert_eq!(cards[0].id, "svc-fs");
    assert_eq!(cards[0].label, "本机磁盘");
    assert_eq!(cards[0].spoken, "本机磁盘目录");
    assert!(!cards[0].selected);
    assert!(cards[1].selected);
    assert_eq!(cards[1].detail, "兼容对象存储");
    assert_eq!(cards[1].icon, Icon::Inbox);
    assert_eq!(cards[2].label, "FTP");
    assert_eq!(cards[2].detail, "");
    assert_eq!(cards[2].icon, Icon::Globe);
    assert_eq!(service_presentation(&nfs()).detail, "网络共享 · v3");
}

#[test]
fn every_scheme_has_a_description() {
    assert_eq!(
        service_description("fs"),
        "选择一个本地文件夹，作为浏览文件的起点。"
    );
    assert_eq!(
        service_description("s3"),
        "连接 AWS S3 或兼容的对象存储服务。"
    );
    assert_eq!(
        service_description("gcs"),
        "连接 Google Cloud Storage 存储桶。"
    );
    assert_eq!(
        service_description("azblob"),
        "连接 Azure Blob Storage 容器。"
    );
    assert_eq!(
        service_description("webdav"),
        "通过 WebDAV 访问服务器或 NAS 上的文件。"
    );
    assert_eq!(
        service_description("nfs"),
        "直接访问 NFSv3 共享，无需先挂载到系统。"
    );
    assert_eq!(service_description("ftp"), "填写连接信息以开始浏览文件。");
}

#[test]
fn fields_stand_in_their_sections() {
    assert_eq!(field_section(&text("bucket")), FieldSection::Location);
    assert_eq!(field_section(&text("username")), FieldSection::Identity);
    assert_eq!(field_section(&text("mount_port")), FieldSection::Advanced);
    assert_eq!(
        field_section(&field("token", "t", FieldKind::Secret)),
        FieldSection::Identity
    );

    let sections = ConnectionForm::new(&s3()).sections("明文保存");
    assert_eq!(sections.len(), 2);
    assert_eq!(sections[0].title, "连接信息");
    assert_eq!(sections[0].inputs, [0, 1, 2, 5]);
    assert!(sections[0].hint.is_none());
    assert_eq!(sections[1].title, "身份凭据");
    assert_eq!(sections[1].hint, Some("明文保存"));
    assert_eq!(sections[1].inputs, [3, 4]);
    assert!(!sections[1].paired);

    let sections = ConnectionForm::new(&nfs()).sections("明文保存");
    assert_eq!(sections.len(), 3);
    assert!(!sections[0].paired);
    assert_eq!(sections[1].title, "访问身份");
    assert_eq!(
        sections[1].hint,
        Some("填写服务端用户和组的数字 ID，以 AUTH_SYS 身份访问共享。")
    );
    assert!(sections[1].paired);
    assert_eq!(sections[2].title, "高级选项");
    assert_eq!(
        sections[2].hint,
        Some("通常无需修改，留空时自动发现服务端口。")
    );
    assert_eq!(sections[2].inputs, [3, 4]);
    assert_eq!(required_mark(true), "必填");
    assert_eq!(required_mark(false), "选填");
}
