//! Every Linux setting, service name and package this crate knows about, in
//! one place.
//!
//! A table is the one kind of code where a typo compiles perfectly, so the
//! tests check the tables themselves: duplicate keys, contradictory mappings,
//! settings pointed at a file whose style does not match.
//!
//! Tables of pairs are held as parallel arrays of the same length, one array
//! per column, so that contracts elsewhere can name each column directly.
use vstd::prelude::*;

use crate::file_ops::Style;

verus! {

/// One hardening setting: where it lives, what it should be, and why.
#[derive(Debug, Clone, Copy)]
pub struct Setting {
    /// The file to write it to.
    pub path: &'static str,
    pub style: Style,
    pub key: &'static str,
    pub value: &'static str,
    /// What the setting is for, in words.
    pub why: &'static str,
}

/// The SSH daemon configuration, written to a drop-in: Ubuntu 22.04 and later
/// include `sshd_config.d/*.conf` as the first line of `sshd_config`, and sshd
/// obeys the first definition of a keyword it sees.
pub const SSHD_DROPIN: &'static str = "/etc/ssh/sshd_config.d/99-pinnacle.conf";

/// Kernel parameters, written to a `sysctl.d` drop-in read last.
pub const SYSCTL_DROPIN: &'static str = "/etc/sysctl.d/99-pinnacle.conf";

/// `login.defs` - shadow-suite defaults for new and existing accounts.
pub const LOGIN_DEFS: &'static str = "/etc/login.defs";

/// The modprobe drop-in that blocks unused kernel modules.
pub const MODPROBE_DROPIN: &'static str = "/etc/modprobe.d/99-pinnacle.conf";

/// The file each hardening setting is written to.
pub const SETTING_PATHS: [&'static str; 37] = [
    SSHD_DROPIN,
    SSHD_DROPIN,
    SSHD_DROPIN,
    SSHD_DROPIN,
    SSHD_DROPIN,
    SSHD_DROPIN,
    SSHD_DROPIN,
    SSHD_DROPIN,
    SSHD_DROPIN,
    SSHD_DROPIN,
    SSHD_DROPIN,
    SYSCTL_DROPIN,
    SYSCTL_DROPIN,
    SYSCTL_DROPIN,
    SYSCTL_DROPIN,
    SYSCTL_DROPIN,
    SYSCTL_DROPIN,
    SYSCTL_DROPIN,
    SYSCTL_DROPIN,
    SYSCTL_DROPIN,
    SYSCTL_DROPIN,
    SYSCTL_DROPIN,
    SYSCTL_DROPIN,
    SYSCTL_DROPIN,
    SYSCTL_DROPIN,
    SYSCTL_DROPIN,
    SYSCTL_DROPIN,
    SYSCTL_DROPIN,
    SYSCTL_DROPIN,
    SYSCTL_DROPIN,
    SYSCTL_DROPIN,
    SYSCTL_DROPIN,
    LOGIN_DEFS,
    LOGIN_DEFS,
    LOGIN_DEFS,
    LOGIN_DEFS,
    LOGIN_DEFS,
];

/// How each hardening setting's file separates key and value.
pub const SETTING_STYLES: [Style; 37] = [
    Style::Space,
    Style::Space,
    Style::Space,
    Style::Space,
    Style::Space,
    Style::Space,
    Style::Space,
    Style::Space,
    Style::Space,
    Style::Space,
    Style::Space,
    Style::Equals,
    Style::Equals,
    Style::Equals,
    Style::Equals,
    Style::Equals,
    Style::Equals,
    Style::Equals,
    Style::Equals,
    Style::Equals,
    Style::Equals,
    Style::Equals,
    Style::Equals,
    Style::Equals,
    Style::Equals,
    Style::Equals,
    Style::Equals,
    Style::Equals,
    Style::Equals,
    Style::Equals,
    Style::Equals,
    Style::Equals,
    Style::Space,
    Style::Space,
    Style::Space,
    Style::Space,
    Style::Space,
];

/// The key of each hardening setting.
pub const SETTING_KEYS: [&'static str; 37] = [
    "PermitRootLogin",
    "PermitEmptyPasswords",
    "X11Forwarding",
    "MaxAuthTries",
    "IgnoreRhosts",
    "HostbasedAuthentication",
    "PermitUserEnvironment",
    "LoginGraceTime",
    "ClientAliveInterval",
    "ClientAliveCountMax",
    "Protocol",
    "net.ipv4.ip_forward",
    "net.ipv4.conf.all.accept_redirects",
    "net.ipv4.conf.default.accept_redirects",
    "net.ipv4.conf.all.secure_redirects",
    "net.ipv4.conf.all.send_redirects",
    "net.ipv4.conf.default.send_redirects",
    "net.ipv4.conf.all.accept_source_route",
    "net.ipv4.conf.default.accept_source_route",
    "net.ipv4.conf.all.rp_filter",
    "net.ipv4.conf.all.log_martians",
    "net.ipv4.icmp_echo_ignore_broadcasts",
    "net.ipv4.icmp_ignore_bogus_error_responses",
    "net.ipv4.tcp_syncookies",
    "net.ipv6.conf.all.accept_redirects",
    "net.ipv6.conf.all.accept_source_route",
    "kernel.randomize_va_space",
    "kernel.dmesg_restrict",
    "kernel.sysrq",
    "fs.protected_hardlinks",
    "fs.protected_symlinks",
    "fs.suid_dumpable",
    "PASS_MAX_DAYS",
    "PASS_MIN_DAYS",
    "PASS_WARN_AGE",
    "UMASK",
    "ENCRYPT_METHOD",
];

/// The value each hardening setting is given.
pub const SETTING_VALUES: [&'static str; 37] = [
    "no",
    "no",
    "no",
    "4",
    "yes",
    "no",
    "no",
    "60",
    "300",
    "0",
    "2",
    "0",
    "0",
    "0",
    "0",
    "0",
    "0",
    "0",
    "0",
    "1",
    "1",
    "1",
    "1",
    "1",
    "0",
    "0",
    "2",
    "1",
    "0",
    "1",
    "1",
    "0",
    "90",
    "7",
    "14",
    "027",
    "SHA512",
];

/// Why each hardening setting exists, in words.
pub const SETTING_REASONS: [&'static str; 37] = [
    "root must log in as a user and escalate, so the audit log names a person",
    "an empty password is not a credential",
    "forwarded X11 lets the server read the client's keystrokes",
    "limits password guessing per connection",
    "host-based trust files bypass authentication entirely",
    "trusts the client's claim about who it is",
    "a user-writable environment file can inject LD_PRELOAD at login",
    "unauthenticated connections should not hold a slot for two minutes",
    "idle sessions are closed rather than left open at an unlocked desk",
    "with the interval above, closes the session at five minutes idle",
    "SSHv1 is broken; harmless on builds that no longer read this",
    "a workstation is not a router",
    "an ICMP redirect can silently reroute traffic through an attacker",
    "as above, for interfaces added later",
    "accepting redirects only from the gateway is still accepting them",
    "only a router should be issuing redirects",
    "as above, for interfaces added later",
    "source routing lets the sender choose the return path and spoof its address",
    "as above, for interfaces added later",
    "drops packets whose source address could not have arrived on that interface",
    "records the spoofed packets rp_filter drops",
    "stops the machine amplifying a smurf attack",
    "keeps malformed ICMP errors out of the log",
    "survives a SYN flood without dropping legitimate connections",
    "as for IPv4; an image with IPv6 up is redirectable over it",
    "as for IPv4",
    "full address-space layout randomisation",
    "the kernel ring buffer leaks addresses useful for building an exploit",
    "the magic SysRq key can dump memory or kill init from the console",
    "stops a hardlink to a file the user cannot read being used to read it",
    "closes the classic /tmp symlink race",
    "a core dump from a setuid program can contain credentials",
    "passwords expire; the stock value is 99999, which is never",
    "stops a user cycling straight back to the old password",
    "warns before the account locks rather than after",
    "new files are not world-readable by default",
    "the hash new passwords are stored with",
];

/// Services that should not be running on a competition image: each sends
/// credentials in clear text, accepts unauthenticated connections, or serves
/// files off a machine that is not supposed to be a server.
pub const PROHIBITED_SERVICE_UNITS: [&'static str; 28] = [
    "telnet.socket",
    "telnetd.service",
    "inetutils-telnetd.service",
    "rsh.socket",
    "rlogin.socket",
    "rexec.socket",
    "vsftpd.service",
    "proftpd.service",
    "pure-ftpd.service",
    "tftpd-hpa.service",
    "nfs-server.service",
    "rpcbind.service",
    "ypserv.service",
    "snmpd.service",
    "avahi-daemon.service",
    "cups.service",
    "cups-browsed.service",
    "bind9.service",
    "nginx.service",
    "apache2.service",
    "smbd.service",
    "nmbd.service",
    "dovecot.service",
    "postfix.service",
    "exim4.service",
    "squid.service",
    "nis.service",
    "xinetd.service",
];

/// Why each prohibited service is prohibited.
pub const PROHIBITED_SERVICE_REASONS: [&'static str; 28] = [
    "sends the password in clear text",
    "sends the password in clear text",
    "sends the password in clear text",
    "sends the password in clear text",
    "sends the password in clear text",
    "sends the password in clear text",
    "FTP sends the password in clear text",
    "FTP sends the password in clear text",
    "FTP sends the password in clear text",
    "TFTP has no authentication at all",
    "exports a filesystem to the network",
    "reachable RPC surface with no authentication",
    "NIS distributes the password database over the network",
    "the default community string is a password everyone knows",
    "advertises the machine and its services on the LAN",
    "a network print server on a machine that is not one",
    "discovers and trusts printers advertised on the LAN",
    "an open resolver is an amplification vector",
    "a web server on a machine that is not one",
    "a web server on a machine that is not one",
    "SMB file sharing on a machine that is not a file server",
    "NetBIOS name service, the SMB discovery half",
    "an IMAP/POP server",
    "an MTA that will relay if misconfigured",
    "an MTA that will relay if misconfigured",
    "an open proxy",
    "NIS distributes the password database over the network",
    "starts whichever of the above are configured under it",
];

/// Services that must keep running whatever else is disabled: the scoring
/// engine, and the units the image needs to boot and be administered.
pub const NEVER_DISABLE: [&'static str; 17] = [
    "ccsclient",
    "cyberpatriot",
    "systemd-journald",
    "systemd-logind",
    "systemd-udevd",
    "dbus",
    "polkit",
    "systemd-resolved",
    "systemd-networkd",
    "NetworkManager",
    "networking",
    "cron",
    "rsyslog",
    "auditd",
    "ufw",
    "apparmor",
    "sudo",
];

/// Display names a README might use for a service.
pub const SERVICE_DISPLAY_NAMES: [&'static str; 34] = [
    "SSH",
    "SSHD",
    "Secure Shell",
    "OpenSSH",
    "OpenSSH Server",
    "Remote Desktop",
    "RDP",
    "XRDP",
    "VNC",
    "Apache",
    "Apache2",
    "HTTP Server",
    "Web Server",
    "Nginx",
    "MySQL",
    "MariaDB",
    "PostgreSQL",
    "Samba",
    "SMB",
    "CUPS",
    "Printing",
    "FTP",
    "vsftpd",
    "Telnet",
    "NFS",
    "DNS",
    "BIND",
    "Postfix",
    "Mail Server",
    "Cron",
    "Auditd",
    "Firewall",
    "UFW",
    "CCS Client",
];

/// The systemd unit each display name means.
pub const SERVICE_UNITS: [&'static str; 34] = [
    "ssh.service",
    "ssh.service",
    "ssh.service",
    "ssh.service",
    "ssh.service",
    "xrdp.service",
    "xrdp.service",
    "xrdp.service",
    "vncserver.service",
    "apache2.service",
    "apache2.service",
    "apache2.service",
    "apache2.service",
    "nginx.service",
    "mysql.service",
    "mariadb.service",
    "postgresql.service",
    "smbd.service",
    "smbd.service",
    "cups.service",
    "cups.service",
    "vsftpd.service",
    "vsftpd.service",
    "telnet.socket",
    "nfs-server.service",
    "bind9.service",
    "bind9.service",
    "postfix.service",
    "postfix.service",
    "cron.service",
    "auditd.service",
    "ufw.service",
    "ufw.service",
    "ccsclient.service",
];

/// Software a README may name.
pub const PACKAGE_NAMES: [&'static str; 36] = [
    "Firefox",
    "Mozilla Firefox",
    "Chromium",
    "Google Chrome",
    "Thunderbird",
    "LibreOffice",
    "VLC",
    "VLC Media Player",
    "GIMP",
    "Audacity",
    "Wireshark",
    "Nmap",
    "ClamAV",
    "OpenSSH Server",
    "Apache",
    "Apache2",
    "Nginx",
    "MySQL",
    "MariaDB",
    "PostgreSQL",
    "Samba",
    "vsftpd",
    "Python",
    "Python3",
    "Git",
    "Vim",
    "Emacs",
    "curl",
    "Wget",
    "Auditd",
    "UFW",
    "Fail2ban",
    "AIDE",
    "rkhunter",
    "chkrootkit",
    "Perl",
];

/// The apt package that provides each named piece of software.
pub const PACKAGE_APT_IDS: [&'static str; 36] = [
    "firefox",
    "firefox",
    "chromium-browser",
    "google-chrome-stable",
    "thunderbird",
    "libreoffice",
    "vlc",
    "vlc",
    "gimp",
    "audacity",
    "wireshark",
    "nmap",
    "clamav",
    "openssh-server",
    "apache2",
    "apache2",
    "nginx",
    "mysql-server",
    "mariadb-server",
    "postgresql",
    "samba",
    "vsftpd",
    "python3",
    "python3",
    "git",
    "vim",
    "emacs",
    "curl",
    "wget",
    "auditd",
    "ufw",
    "fail2ban",
    "aide",
    "rkhunter",
    "chkrootkit",
    "perl",
];

/// Packages that are never legitimate on a competition image: remote-access
/// backdoors, password crackers and clear-text network services.
pub const ALWAYS_PROHIBITED_PACKAGES: [&'static str; 29] = [
    "john",
    "john-data",
    "hydra",
    "hydra-gtk",
    "medusa",
    "hashcat",
    "ophcrack",
    "aircrack-ng",
    "ettercap-text-only",
    "ettercap-graphical",
    "nikto",
    "netcat-traditional",
    "telnetd",
    "inetutils-telnetd",
    "rsh-server",
    "rsh-client",
    "talk",
    "talkd",
    "finger",
    "tftpd-hpa",
    "nis",
    "ypserv",
    "zeitgeist",
    "logkeys",
    "crack",
    "wireshark",
    "kismet",
    "nmap",
    "zenmap",
];

/// Why each always-prohibited package is removed.
pub const ALWAYS_PROHIBITED_REASONS: [&'static str; 29] = [
    "password cracker",
    "password cracker data files",
    "network login brute-forcer",
    "network login brute-forcer",
    "network login brute-forcer",
    "password cracker",
    "password cracker",
    "wireless key cracker",
    "man-in-the-middle tool",
    "man-in-the-middle tool",
    "web vulnerability scanner",
    "raw network listener, the classic backdoor",
    "clear-text remote shell",
    "clear-text remote shell",
    "clear-text remote shell",
    "clear-text remote shell client",
    "clear-text chat service",
    "clear-text chat service",
    "leaks who is logged in and when",
    "file transfer with no authentication",
    "distributes the password database over the network",
    "distributes the password database over the network",
    "activity logger frequently repurposed as a keylogger",
    "keylogger",
    "password cracker",
    "packet capture; a monitoring tool, not a workstation tool",
    "wireless sniffer",
    "network scanner",
    "network scanner",
];

/// Accounts that must never be removed or locked, whatever the README says.
pub const SYSTEM_ACCOUNTS: [&'static str; 49] = [
    "root",
    "daemon",
    "bin",
    "sys",
    "sync",
    "games",
    "man",
    "lp",
    "mail",
    "news",
    "uucp",
    "proxy",
    "www-data",
    "backup",
    "list",
    "irc",
    "gnats",
    "nobody",
    "systemd-network",
    "systemd-resolve",
    "systemd-timesync",
    "messagebus",
    "syslog",
    "_apt",
    "tss",
    "uuidd",
    "tcpdump",
    "avahi-autoipd",
    "usbmux",
    "dnsmasq",
    "kernoops",
    "avahi",
    "cups-pk-helper",
    "rtkit",
    "whoopsie",
    "sssd",
    "speech-dispatcher",
    "nm-openvpn",
    "saned",
    "colord",
    "geoclue",
    "pulse",
    "gnome-initial-setup",
    "hplip",
    "gdm",
    "sshd",
    "lightdm",
    "polkitd",
    "nvidia-persistenced",
];

/// The lowest uid the shadow suite gives to a human account.
pub const FIRST_HUMAN_UID: u32 = 1000;

/// The groups that grant administrative rights: `sudo` on Debian and Ubuntu,
/// `wheel` on Red Hat and its derivatives.
pub const ADMIN_GROUPS: [&'static str; 3] = ["sudo", "wheel", "admin"];

/// Filesystems and network protocols an image has no use for, blocked from
/// loading (CIS Ubuntu benchmark, sections 1.1.1 and 3.4).
pub const MODULES_TO_BLOCK: [&'static str; 11] = [
    "cramfs",
    "freevxfs",
    "jffs2",
    "hfs",
    "hfsplus",
    "squashfs",
    "udf",
    "dccp",
    "sctp",
    "rds",
    "tipc",
];

/// Why each module is blocked.
pub const MODULE_REASONS: [&'static str; 11] = [
    "an unused filesystem is kernel code reachable by mounting a crafted image",
    "an unused filesystem is kernel code reachable by mounting a crafted image",
    "an unused filesystem is kernel code reachable by mounting a crafted image",
    "an unused filesystem is kernel code reachable by mounting a crafted image",
    "an unused filesystem is kernel code reachable by mounting a crafted image",
    "an unused filesystem is kernel code reachable by mounting a crafted image",
    "an unused filesystem is kernel code reachable by mounting a crafted image",
    "an unused network protocol is kernel code reachable from the network",
    "an unused network protocol is kernel code reachable from the network",
    "an unused network protocol is kernel code reachable from the network",
    "an unused network protocol is kernel code reachable from the network",
];

/// The hardening settings, one row per setting.
pub fn hardening_settings() -> (r: Vec<Setting>)
    ensures
        r@.len() == SETTING_KEYS@.len(),
        forall|i: int|
            0 <= i < r@.len() ==> (#[trigger] r@[i]) == (Setting {
                path: SETTING_PATHS@[i],
                style: SETTING_STYLES@[i],
                key: SETTING_KEYS@[i],
                value: SETTING_VALUES@[i],
                why: SETTING_REASONS@[i],
            }),
{
    let mut out: Vec<Setting> = Vec::new();
    let n = SETTING_KEYS.len();
    let mut i: usize = 0;
    while i < n
        invariant
            i <= n == SETTING_KEYS@.len(),
            out@.len() == i,
            forall|k: int|
                0 <= k < i ==> (#[trigger] out@[k]) == (Setting {
                    path: SETTING_PATHS@[k],
                    style: SETTING_STYLES@[k],
                    key: SETTING_KEYS@[k],
                    value: SETTING_VALUES@[k],
                    why: SETTING_REASONS@[k],
                }),
        decreases n - i,
    {
        out.push(
            Setting {
                path: SETTING_PATHS[i],
                style: SETTING_STYLES[i],
                key: SETTING_KEYS[i],
                value: SETTING_VALUES[i],
                why: SETTING_REASONS[i],
            },
        );
        i = i + 1;
    }
    out
}

/// Two parallel columns as a list of rows.
pub fn rows<const N: usize>(a: &[&'static str; N], b: &[&'static str; N]) -> (r: Vec<
    (&'static str, &'static str),
>)
    ensures
        r@.len() == N,
        forall|i: int| 0 <= i < N ==> (#[trigger] r@[i]) == (a@[i], b@[i]),
{
    let mut out: Vec<(&'static str, &'static str)> = Vec::new();
    let mut i: usize = 0;
    while i < N
        invariant
            i <= N,
            a@.len() == N && b@.len() == N,
            out@.len() == i,
            forall|k: int| 0 <= k < i ==> (#[trigger] out@[k]) == (a@[k], b@[k]),
        decreases N - i,
    {
        out.push((a[i], b[i]));
        i = i + 1;
    }
    out
}

/// The prohibited services, as `(unit, reason)`.
pub fn prohibited_services() -> (r: Vec<(&'static str, &'static str)>)
    ensures
        r@.len() == PROHIBITED_SERVICE_UNITS@.len(),
        forall|i: int|
            0 <= i < r@.len() ==> (#[trigger] r@[i]) == (
                PROHIBITED_SERVICE_UNITS@[i],
                PROHIBITED_SERVICE_REASONS@[i],
            ),
{
    rows(&PROHIBITED_SERVICE_UNITS, &PROHIBITED_SERVICE_REASONS)
}

/// The README display names, as `(display name, unit)`.
pub fn service_name_map() -> (r: Vec<(&'static str, &'static str)>)
    ensures
        r@.len() == SERVICE_DISPLAY_NAMES@.len(),
        forall|i: int|
            0 <= i < r@.len() ==> (#[trigger] r@[i]) == (SERVICE_DISPLAY_NAMES@[i], SERVICE_UNITS@[i]),
{
    rows(&SERVICE_DISPLAY_NAMES, &SERVICE_UNITS)
}

/// The software names a README may use, as `(name, apt package)`.
pub fn package_ids() -> (r: Vec<(&'static str, &'static str)>)
    ensures
        r@.len() == PACKAGE_NAMES@.len(),
        forall|i: int| 0 <= i < r@.len() ==> (#[trigger] r@[i]) == (PACKAGE_NAMES@[i], PACKAGE_APT_IDS@[i]),
{
    rows(&PACKAGE_NAMES, &PACKAGE_APT_IDS)
}

/// The always-prohibited packages, as `(package, reason)`.
pub fn always_prohibited() -> (r: Vec<(&'static str, &'static str)>)
    ensures
        r@.len() == ALWAYS_PROHIBITED_PACKAGES@.len(),
        forall|i: int|
            0 <= i < r@.len() ==> (#[trigger] r@[i]) == (
                ALWAYS_PROHIBITED_PACKAGES@[i],
                ALWAYS_PROHIBITED_REASONS@[i],
            ),
{
    rows(&ALWAYS_PROHIBITED_PACKAGES, &ALWAYS_PROHIBITED_REASONS)
}

/// The modules to block, as `(module, reason)`.
pub fn modules_to_block() -> (r: Vec<(&'static str, &'static str)>)
    ensures
        r@.len() == MODULES_TO_BLOCK@.len(),
        forall|i: int| 0 <= i < r@.len() ==> (#[trigger] r@[i]) == (MODULES_TO_BLOCK@[i], MODULE_REASONS@[i]),
{
    rows(&MODULES_TO_BLOCK, &MODULE_REASONS)
}

} // verus!

verus! {

/// Files whose mode and owner are scored, with the CIS Benchmark's values:
/// the path, column by column with the tables below.
pub const CRITICAL_FILE_PATHS: [&'static str; 8] = [
    "/etc/passwd",
    "/etc/group",
    "/etc/shadow",
    "/etc/gshadow",
    "/etc/sudoers",
    "/etc/ssh/sshd_config",
    "/etc/crontab",
    "/boot/grub/grub.cfg",
];

/// The most each of [`CRITICAL_FILE_PATHS`] may allow.
pub const CRITICAL_FILE_MODES: [u32; 8] = [0o644, 0o644, 0o640, 0o640, 0o440, 0o600, 0o600, 0o400];

/// The `user:group` each of [`CRITICAL_FILE_PATHS`] must belong to.
pub const CRITICAL_FILE_OWNERS: [&'static str; 8] = [
    "root:root",
    "root:root",
    "root:shadow",
    "root:shadow",
    "root:root",
    "root:root",
    "root:root",
    "root:root",
];

pub const CRITICAL_FILE_REASONS: [&'static str; 8] = [
    "every account is listed here; only root may change it",
    "group membership decides who is an administrator",
    "holds the password hashes",
    "holds the group password hashes",
    "decides who may run commands as root",
    "the SSH daemon's configuration",
    "jobs in it run as root",
    "the boot loader's configuration, which can start a root shell",
];

/// Files in a home directory that grant access without a password.
pub const DANGEROUS_DOTFILES: [&'static str; 3] = [".rhosts", ".shosts", ".netrc"];

pub const DANGEROUS_DOTFILE_REASONS: [&'static str; 3] = [
    "lets a listed host log in as this user with no password",
    "lets a listed host log in over SSH with no password",
    "holds passwords for remote machines in plain text",
];

} // verus!
